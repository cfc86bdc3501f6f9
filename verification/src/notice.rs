//! The duplicate notice: the embed-shaped report sent when a message repeats
//! links already recorded in its scope.
//!
//! The notice is built here as plain data — title, description, one field
//! per duplicate, footer, and the two controls — and rendered and sent by
//! the application.

use vstd::prelude::*;

use crate::bytes::clone_bytes;

verus! {

/// One link found already recorded: the link as posted, and the canonical
/// reference (permalink) to the message that first posted it.
pub struct DuplicateSighting {
    pub link: Vec<u8>,
    pub prior: Vec<u8>,
}

/// One embed field of the notice: the repeated link as the field name, the
/// prior reference as its value, laid out inline.
pub struct NoticeField {
    pub name: Vec<u8>,
    pub value: Vec<u8>,
    pub inline: bool,
}

/// One interactive control on the notice.
pub struct Control {
    pub id: &'static str,
    pub label: &'static str,
}

/// The notice to send: a titled embed listing every duplicate, with a fixed
/// footer and the ignore/remove controls.
pub struct Notice {
    pub title: &'static str,
    pub description: &'static str,
    pub fields: Vec<NoticeField>,
    pub footer: &'static str,
    pub ignore_control: Control,
    pub remove_control: Control,
}

/// Compose the notice for a non-empty list of duplicate sightings: singular
/// or plural description by count, one inline field per duplicate in order,
/// and the two controls under their fixed identifiers.
pub fn build_notice(dups: &Vec<DuplicateSighting>) -> (r: Notice)
    requires
        dups@.len() >= 1,
    ensures
        r.title@ == "Duplicate Links"@,
        dups@.len() == 1 ==> r.description@ == "One of these has been posted in the last 7 days in this channel"@,
        dups@.len() > 1 ==> r.description@ == "Some of these have been posted in the last 7 days in this channel"@,
        r.fields@.len() == dups@.len(),
        forall|i: int|
            0 <= i < dups@.len() ==> r.fields@[i].name@ == dups@[i].link@ && r.fields@[i].value@
                == dups@[i].prior@ && r.fields@[i].inline,
        r.footer@ == "Bugs? Ask @gmem.ca"@,
        r.ignore_control.id@ == "ignore"@,
        r.ignore_control.label@ == "Ignore"@,
        r.remove_control.id@ == "remove"@,
        r.remove_control.label@ == "Remove my post"@,
{
    let description: &'static str = if dups.len() > 1 {
        "Some of these have been posted in the last 7 days in this channel"
    } else {
        "One of these has been posted in the last 7 days in this channel"
    };
    let mut fields: Vec<NoticeField> = Vec::new();
    let mut i: usize = 0;
    while i < dups.len()
        invariant
            i <= dups@.len(),
            fields@.len() == i,
            forall|j: int|
                0 <= j < i ==> fields@[j].name@ == dups@[j].link@ && fields@[j].value@
                    == dups@[j].prior@ && fields@[j].inline,
        decreases dups@.len() - i,
    {
        fields.push(
            NoticeField {
                name: clone_bytes(&dups[i].link),
                value: clone_bytes(&dups[i].prior),
                inline: true,
            },
        );
        i = i + 1;
    }
    Notice {
        title: "Duplicate Links",
        description,
        fields,
        footer: "Bugs? Ask @gmem.ca",
        ignore_control: Control { id: "ignore", label: "Ignore" },
        remove_control: Control { id: "remove", label: "Remove my post" },
    }
}

} // verus!
