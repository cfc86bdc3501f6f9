use std::collections::HashMap;

use dupewatch::fingerprint::{fingerprint_key, index_key};
use dupewatch::listener::{ControlId, Listener, ListenerActions};
use dupewatch::notice::{build_notice, DuplicateSighting};
use dupewatch::pipeline::candidate_links;
use dupewatch::previews::Preview;
use dupewatch::store::{check_link, forget_keys, LinkDecision};

type Cache = HashMap<Vec<u8>, Vec<u8>>;

fn handle_message(
    cache: &mut Cache,
    author_is_bot: bool,
    text: &str,
    previews: &Vec<Preview>,
    scope: u64,
    message: u64,
    permalink: &str,
) -> Vec<DuplicateSighting> {
    let permalink = permalink.as_bytes().to_vec();
    let mut dups = Vec::new();
    let links = candidate_links(author_is_bot, &text.as_bytes().to_vec(), previews);
    for link in links {
        let key = fingerprint_key(&link, scope);
        let lookup = cache.get(&key).cloned();
        match check_link(&link, scope, message, &permalink, lookup) {
            LinkDecision::Duplicate { prior } => dups.push(DuplicateSighting { link, prior }),
            LinkDecision::New { writes } => {
                for w in writes {
                    cache.insert(w.key, w.value);
                }
            },
        }
    }
    dups
}

fn handle_deletion(cache: &mut Cache, scope: u64, message: u64) {
    let idx = index_key(scope, message);
    let lookup = cache.get(&idx).cloned();
    for key in forget_keys(&idx, lookup) {
        cache.remove(&key);
    }
}

#[test]
fn message_without_urls_touches_nothing() {
    let mut cache = Cache::new();
    let dups = handle_message(&mut cache, false, "hello there", &vec![], 111, 1, "p1");
    assert!(dups.is_empty());
    assert!(cache.is_empty());
}

#[test]
fn bot_messages_are_ignored() {
    let mut cache = Cache::new();
    let dups =
        handle_message(&mut cache, true, "see http://example.com/a", &vec![], 111, 1, "p1");
    assert!(dups.is_empty());
    assert!(cache.is_empty());
}

#[test]
fn media_preview_url_is_not_checked() {
    let mut cache = Cache::new();
    let previews = vec![Preview {
        kind: b"image".to_vec(),
        url: Some(b"https://img.example.com/cat.png".to_vec()),
    }];
    let dups = handle_message(
        &mut cache,
        false,
        "https://img.example.com/cat.png",
        &previews,
        111,
        1,
        "p1",
    );
    assert!(dups.is_empty());
    assert!(cache.is_empty());
}

#[test]
fn non_media_preview_does_not_exclude() {
    let mut cache = Cache::new();
    let previews = vec![Preview {
        kind: b"link".to_vec(),
        url: Some(b"https://img.example.com/cat.png".to_vec()),
    }];
    let dups = handle_message(
        &mut cache,
        false,
        "https://img.example.com/cat.png",
        &previews,
        111,
        1,
        "p1",
    );
    assert!(dups.is_empty());
    assert_eq!(cache.len(), 2);
}

#[test]
fn first_post_records_both_entries() {
    let mut cache = Cache::new();
    let permalink = "https://messages.example/111/222";
    let dups = handle_message(
        &mut cache,
        false,
        "check out http://example.com/a",
        &vec![],
        111,
        222,
        permalink,
    );
    assert!(dups.is_empty());
    assert_eq!(cache.len(), 2);
    assert_eq!(cache.get(&b"c236e8573f8c4a48".to_vec()), Some(&permalink.as_bytes().to_vec()));
    assert_eq!(cache.get(&b"111-222".to_vec()), Some(&b"c236e8573f8c4a48".to_vec()));
}

#[test]
fn repost_is_flagged_with_original_permalink() {
    let mut cache = Cache::new();
    let first = "https://messages.example/111/222";
    handle_message(&mut cache, false, "check out http://example.com/a", &vec![], 111, 222, first);
    let dups = handle_message(
        &mut cache,
        false,
        "mine too: http://example.com/a",
        &vec![],
        111,
        333,
        "https://messages.example/111/333",
    );
    assert_eq!(dups.len(), 1);
    assert_eq!(dups[0].link, b"http://example.com/a".to_vec());
    assert_eq!(dups[0].prior, first.as_bytes().to_vec());
    // The repost is not re-recorded: the cache still cites the original.
    assert_eq!(cache.len(), 2);
    assert_eq!(cache.get(&b"c236e8573f8c4a48".to_vec()), Some(&first.as_bytes().to_vec()));

    let notice = build_notice(&dups);
    assert_eq!(notice.title, "Duplicate Links");
    assert_eq!(
        notice.description,
        "One of these has been posted in the last 7 days in this channel"
    );
    assert_eq!(notice.fields.len(), 1);
    assert_eq!(notice.fields[0].name, b"http://example.com/a".to_vec());
    assert_eq!(notice.fields[0].value, first.as_bytes().to_vec());
    assert!(notice.fields[0].inline);
    assert_eq!(notice.footer, "Bugs? Ask @gmem.ca");
    assert_eq!(notice.ignore_control.id, "ignore");
    assert_eq!(notice.ignore_control.label, "Ignore");
    assert_eq!(notice.remove_control.id, "remove");
    assert_eq!(notice.remove_control.label, "Remove my post");
}

#[test]
fn several_duplicates_get_the_plural_description() {
    let dups = vec![
        DuplicateSighting { link: b"https://a.bc".to_vec(), prior: b"p1".to_vec() },
        DuplicateSighting { link: b"https://c.de".to_vec(), prior: b"p2".to_vec() },
    ];
    let notice = build_notice(&dups);
    assert_eq!(
        notice.description,
        "Some of these have been posted in the last 7 days in this channel"
    );
    assert_eq!(notice.fields.len(), 2);
}

#[test]
fn deleted_original_is_forgotten_and_repost_is_new() {
    let mut cache = Cache::new();
    handle_message(
        &mut cache,
        false,
        "check out http://example.com/a",
        &vec![],
        111,
        222,
        "https://messages.example/111/222",
    );
    assert_eq!(cache.len(), 2);
    handle_deletion(&mut cache, 111, 222);
    assert!(cache.is_empty());
    let dups = handle_message(
        &mut cache,
        false,
        "again http://example.com/a",
        &vec![],
        111,
        444,
        "https://messages.example/111/444",
    );
    assert!(dups.is_empty());
    assert_eq!(cache.len(), 2);
}

#[test]
fn deletion_of_untracked_message_changes_nothing() {
    let mut cache = Cache::new();
    handle_message(
        &mut cache,
        false,
        "check out http://example.com/a",
        &vec![],
        111,
        222,
        "https://messages.example/111/222",
    );
    handle_deletion(&mut cache, 111, 555);
    assert_eq!(cache.len(), 2);
}

#[test]
fn same_link_twice_in_one_message_is_its_own_duplicate() {
    let mut cache = Cache::new();
    let permalink = "https://messages.example/111/222";
    let dups = handle_message(
        &mut cache,
        false,
        "twice http://example.com/a and http://example.com/a",
        &vec![],
        111,
        222,
        permalink,
    );
    // The first occurrence is recorded; the second looks it up and is
    // reported as a duplicate of the very same message.
    assert_eq!(dups.len(), 1);
    assert_eq!(dups[0].prior, permalink.as_bytes().to_vec());
}

#[test]
fn remove_control_honored_only_for_author() {
    let mut listener = Listener::open_for(10);
    let stranger = listener.on_activation(11, ControlId::Remove);
    assert_eq!(stranger, ListenerActions { delete_original: false, delete_notice: false });
    assert!(listener.listening);

    let author = listener.on_activation(10, ControlId::Remove);
    assert_eq!(author, ListenerActions { delete_original: true, delete_notice: true });
    assert!(!listener.listening);

    let late = listener.on_activation(10, ControlId::Ignore);
    assert_eq!(late, ListenerActions { delete_original: false, delete_notice: false });
    assert!(!listener.listening);
}

#[test]
fn ignore_control_deletes_only_the_notice() {
    let mut listener = Listener::open_for(10);
    let actions = listener.on_activation(10, ControlId::Ignore);
    assert_eq!(actions, ListenerActions { delete_original: false, delete_notice: true });
    assert!(!listener.listening);
}

#[test]
fn timeout_closes_the_listener_for_good() {
    let mut listener = Listener::open_for(10);
    let at_timeout = listener.on_timeout();
    assert_eq!(at_timeout, ListenerActions { delete_original: false, delete_notice: false });
    assert!(!listener.listening);

    let late = listener.on_activation(10, ControlId::Remove);
    assert_eq!(late, ListenerActions { delete_original: false, delete_notice: false });
    assert!(!listener.listening);
}
