//! The per-message front of the pipeline: which links in a message are
//! subject to duplicate checking at all.
//!
//! Messages written by bots are left alone. For anyone else's message the
//! candidates are the URL-shaped matches of the text, in order, minus those
//! a media-kind preview claims as its URL. Each surviving candidate is then
//! looked up and decided by `crate::store::check_link`, one at a time, in
//! order.

use vstd::prelude::*;

use crate::links::{contains_url, extract_links, lemma_no_url_no_matches, url_matches};
use crate::previews::{filter_media_links, kept_links, Preview};

verus! {

/// All links in a message subject to duplicate checking: none for a bot's
/// message, else the URL-shaped matches of the text minus the media-preview
/// URLs. A message without URL-shaped substrings yields no candidates, so
/// nothing downstream has anything to look up, record or report.
pub fn candidate_links(author_is_bot: bool, text: &Vec<u8>, previews: &Vec<Preview>) -> (r: Vec<
    Vec<u8>,
>)
    ensures
        author_is_bot ==> r.deep_view() == Seq::<Seq<u8>>::empty(),
        !author_is_bot ==> r.deep_view() == kept_links(url_matches(text@), previews.deep_view()),
        !contains_url(text@) ==> r@.len() == 0,
{
    if author_is_bot {
        let r: Vec<Vec<u8>> = Vec::new();
        proof {
            assert(r.deep_view() =~~= Seq::<Seq<u8>>::empty());
        }
        r
    } else {
        let matches = extract_links(text);
        let r = filter_media_links(matches, previews);
        proof {
            if !contains_url(text@) {
                lemma_no_url_no_matches(text@);
                assert(url_matches(text@) =~~= Seq::<Seq<u8>>::empty());
                assert(r.deep_view().len() == 0);
                assert(r@.len() == 0);
            }
        }
        r
    }
}

} // verus!
