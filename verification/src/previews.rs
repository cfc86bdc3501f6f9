//! Filtering out links that are mere media previews.
//!
//! A message carries a list of rich-media previews. Every preview whose kind
//! is one of `image`, `video`, `gifv`, `rich` marks its URL as an incidental
//! rendering, not a user-intended link share: candidate links equal to such
//! a URL (byte for byte) are dropped before duplicate checking.

use vstd::prelude::*;

use crate::bytes::{bytes_eq, clone_bytes};

verus! {

/// One rich-media preview attached to a message: its kind tag and, when the
/// platform supplied one, its URL. A preview without a URL excludes nothing.
pub struct Preview {
    pub kind: Vec<u8>,
    pub url: Option<Vec<u8>>,
}

impl DeepView for Preview {
    type V = (Seq<u8>, Option<Seq<u8>>);

    open spec fn deep_view(&self) -> (Seq<u8>, Option<Seq<u8>>) {
        (self.kind@, self.url.deep_view())
    }
}

/// Whether `k` is a media kind: `image`, `video`, `gifv` or `rich`.
pub open spec fn is_media_kind(k: Seq<u8>) -> bool {
    ||| (k.len() == 5 && k[0] == 0x69 && k[1] == 0x6d && k[2] == 0x61 && k[3] == 0x67 && k[4]
        == 0x65)  // "image"
    ||| (k.len() == 5 && k[0] == 0x76 && k[1] == 0x69 && k[2] == 0x64 && k[3] == 0x65 && k[4]
        == 0x6f)  // "video"
    ||| (k.len() == 4 && k[0] == 0x67 && k[1] == 0x69 && k[2] == 0x66 && k[3] == 0x76)  // "gifv"
    ||| (k.len() == 4 && k[0] == 0x72 && k[1] == 0x69 && k[2] == 0x63 && k[3] == 0x68)  // "rich"
}

/// Whether `link` is excluded by some media-kind preview whose URL equals it
/// exactly.
pub open spec fn is_excluded(link: Seq<u8>, previews: Seq<(Seq<u8>, Option<Seq<u8>>)>) -> bool {
    exists|j: int|
        0 <= j < previews.len() && is_media_kind(previews[j].0) && previews[j].1 == Option::Some(
            link,
        )
}

/// The candidate links that survive the preview filter, in order, duplicates
/// kept.
pub open spec fn kept_links(
    links: Seq<Seq<u8>>,
    previews: Seq<(Seq<u8>, Option<Seq<u8>>)>,
) -> Seq<Seq<u8>>
    decreases links.len(),
{
    if links.len() == 0 {
        Seq::empty()
    } else if is_excluded(links[0], previews) {
        kept_links(links.drop_first(), previews)
    } else {
        seq![links[0]] + kept_links(links.drop_first(), previews)
    }
}

/// Whether `k` is a media kind, executably.
fn kind_is_media(k: &Vec<u8>) -> (r: bool)
    ensures
        r == is_media_kind(k@),
{
    let n = k.len();
    (n == 5 && k[0] == 0x69 && k[1] == 0x6d && k[2] == 0x61 && k[3] == 0x67 && k[4] == 0x65) || (n
        == 5 && k[0] == 0x76 && k[1] == 0x69 && k[2] == 0x64 && k[3] == 0x65 && k[4] == 0x6f) || (n
        == 4 && k[0] == 0x67 && k[1] == 0x69 && k[2] == 0x66 && k[3] == 0x76) || (n == 4 && k[0]
        == 0x72 && k[1] == 0x69 && k[2] == 0x63 && k[3] == 0x68)
}

/// A preview's entry in the deep view of the preview list is its own deep
/// view.
proof fn lemma_preview_entry(previews: &Vec<Preview>, j: int)
    requires
        0 <= j < previews@.len(),
    ensures
        previews.deep_view()[j] == previews@[j].deep_view(),
{
}

/// Whether some media-kind preview's URL equals `link` exactly.
fn link_is_excluded(link: &Vec<u8>, previews: &Vec<Preview>) -> (r: bool)
    ensures
        r == is_excluded(link@, previews.deep_view()),
{
    let mut j: usize = 0;
    while j < previews.len()
        invariant
            j <= previews@.len(),
            forall|i: int|
                0 <= i < j ==> !(is_media_kind(previews.deep_view()[i].0)
                    && previews.deep_view()[i].1 == Option::Some(link@)),
        decreases previews@.len() - j,
    {
        proof {
            lemma_preview_entry(previews, j as int);
        }
        if kind_is_media(&previews[j].kind) {
            match &previews[j].url {
                Option::Some(url) => {
                    if bytes_eq(url, link) {
                        proof {
                            assert(previews.deep_view()[j as int].1 == Option::Some(link@));
                        }
                        return true;
                    }
                    proof {
                        assert(previews@[j as int].url == Option::Some(*url));
                        assert(previews.deep_view()[j as int].1 == Option::Some(url@));
                    }
                },
                Option::None => {
                    proof {
                        assert(previews.deep_view()[j as int].1 is None);
                    }
                },
            }
        } else {
            proof {
                assert(!is_media_kind(previews.deep_view()[j as int].0));
            }
        }
        proof {
            assert(!(is_media_kind(previews.deep_view()[j as int].0)
                && previews.deep_view()[j as int].1 == Option::Some(link@)));
        }
        j = j + 1;
    }
    false
}

/// Drop every candidate link that a media-kind preview claims as its URL;
/// keep the rest, in order, duplicates included.
pub fn filter_media_links(links: Vec<Vec<u8>>, previews: &Vec<Preview>) -> (r: Vec<Vec<u8>>)
    ensures
        r.deep_view() == kept_links(links.deep_view(), previews.deep_view()),
{
    let ghost all = links.deep_view();
    let ghost pv = previews.deep_view();
    let mut out: Vec<Vec<u8>> = Vec::new();
    let mut i: usize = 0;
    proof {
        assert(all.skip(0) =~~= all);
        assert(out.deep_view() + kept_links(all, pv) =~~= kept_links(all, pv));
    }
    while i < links.len()
        invariant
            i <= links@.len(),
            all == links.deep_view(),
            pv == previews.deep_view(),
            out.deep_view() + kept_links(all.skip(i as int), pv) == kept_links(all, pv),
        decreases links@.len() - i,
    {
        let excluded = link_is_excluded(&links[i], previews);
        proof {
            assert(all[i as int] =~= links@[i as int]@);
            assert(all.skip(i as int)[0] == all[i as int]);
            assert(all.skip(i as int).drop_first() =~~= all.skip(i as int + 1));
            assert(kept_links(all.skip(i as int).drop_first(), pv) == kept_links(
                all.skip(i as int + 1),
                pv,
            ));
        }
        if !excluded {
            let ghost prev = out.deep_view();
            out.push(clone_bytes(&links[i]));
            proof {
                assert(kept_links(all.skip(i as int), pv) == seq![all[i as int]] + kept_links(
                    all.skip(i as int + 1),
                    pv,
                ));
                assert(out.deep_view() =~~= prev.push(all[i as int]));
                assert(prev.push(all[i as int]) + kept_links(all.skip(i as int + 1), pv) =~~= prev
                    + kept_links(all.skip(i as int), pv));
            }
        } else {
            proof {
                assert(kept_links(all.skip(i as int), pv) == kept_links(
                    all.skip(i as int + 1),
                    pv,
                ));
            }
        }
        i = i + 1;
    }
    proof {
        assert(all.skip(all.len() as int) =~~= Seq::<Seq<u8>>::empty());
        assert(out.deep_view() + kept_links(all.skip(all.len() as int), pv) =~~= out.deep_view());
    }
    out
}

/// Law: a link whose exact string a media-kind preview claims as its URL
/// never survives the filter, so it is excluded from duplicate checking
/// altogether.
pub proof fn lemma_excluded_link_dropped(
    links: Seq<Seq<u8>>,
    previews: Seq<(Seq<u8>, Option<Seq<u8>>)>,
    link: Seq<u8>,
)
    requires
        is_excluded(link, previews),
    ensures
        !kept_links(links, previews).contains(link),
    decreases links.len(),
{
    if links.len() == 0 {
    } else {
        lemma_excluded_link_dropped(links.drop_first(), previews, link);
        let rest = kept_links(links.drop_first(), previews);
        if !is_excluded(links[0], previews) {
            let s = seq![links[0]] + rest;
            assert(kept_links(links, previews) == s);
            assert forall|i: int| 0 <= i < s.len() implies s[i] != link by {
                if i == 0 {
                    assert(s[0] == links[0]);
                } else {
                    assert(s[i] == rest[i - 1]);
                }
            }
        }
    }
}

} // verus!
