//! Private notes: what one dictated note adds to the note file of its day.
//! Writing the file is left to the caller.

use vstd::prelude::*;

verus! {

/// Relies on `chrono::Local::now`, formatted as `%Y-%m-%d %H:%M`: the local
/// date and minute now.
#[verifier::external_body]
pub(crate) fn local_stamp() -> (r: String) {
    chrono::Local::now().format("%Y-%m-%d %H:%M").to_string()
}

/// Index of the first space in `s`, if any.
pub open spec fn first_space(s: Seq<char>, i: int) -> bool {
    0 <= i < s.len() && s[i] == ' ' && forall|j: int| 0 <= j < i ==> s[j] != ' '
}

/// A stamp split at its first space into date and time; a stamp without a
/// space is all date.
pub fn split_stamp(stamp: &str) -> (r: (String, String))
    ensures
        forall|i: int| first_space(stamp@, i) ==> r.0@ == stamp@.subrange(0, i) && r.1@
            == stamp@.subrange(i + 1, stamp@.len() as int),
        (forall|i: int| !first_space(stamp@, i)) ==> r.0@ == stamp@ && r.1@.len() == 0,
{
    let n = stamp.unicode_len();
    let mut i: usize = 0;
    while i < n
        invariant
            n == stamp@.len(),
            i <= n,
            forall|j: int| 0 <= j < i ==> stamp@[j] != ' ',
        decreases n - i,
    {
        if stamp.get_char(i) == ' ' {
            assert(first_space(stamp@, i as int));
            assert forall|k: int| first_space(stamp@, k) implies k == i by {
                if k < i {
                } else if k > i {
                    assert(stamp@[i as int] == ' ');
                }
            }
            return (
                String::from_str(stamp.substring_char(0, i)),
                String::from_str(stamp.substring_char(i + 1, n)),
            );
        }
        i += 1;
    }
    (String::from_str(stamp), String::new())
}

pub open spec fn note_file_of(day: Seq<char>) -> Seq<char> {
    day + ".md"@
}

pub open spec fn note_header_of(day: Seq<char>) -> Seq<char> {
    "# "@ + day + "\n\n"@
}

pub open spec fn note_body_of(time: Seq<char>, text: Seq<char>) -> Seq<char> {
    "<!-- "@ + time + " -->\n"@ + text + "\n\n"@
}

/// What one dictated note adds to the note file of its day.
pub struct NoteEntry {
    /// Name of the day's file in the notes directory.
    pub file_name: String,
    /// Written first when the file does not exist yet.
    pub header: String,
    /// The note itself, stamped with the time.
    pub body: String,
}

/// The entry for `text` dictated on `day` at `time`.
pub fn note_entry(day: &str, time: &str, text: &str) -> (r: NoteEntry)
    ensures
        r.file_name@ == note_file_of(day@),
        r.header@ == note_header_of(day@),
        r.body@ == note_body_of(time@, text@),
{
    let mut file_name = String::from_str(day);
    file_name.append(".md");
    let mut header = String::from_str("# ");
    header.append(day);
    header.append("\n\n");
    let mut body = String::from_str("<!-- ");
    body.append(time);
    body.append(" -->\n");
    body.append(text);
    body.append("\n\n");
    NoteEntry { file_name, header, body }
}

/// The entry for `text` dictated now, stamped with the local date and time.
pub fn note_entry_now(text: &str) -> (r: NoteEntry)
    ensures
        exists|day: Seq<char>, time: Seq<char>|
            r.file_name@ == note_file_of(day) && r.header@ == note_header_of(day) && r.body@
                == note_body_of(time, text@),
{
    let stamp = local_stamp();
    let (day, time) = split_stamp(stamp.as_str());
    note_entry(day.as_str(), time.as_str(), text)
}

} // verus!
