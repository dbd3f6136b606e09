//! The `daylite://` link that opens a project in the Daylite app.

use crate::text::{is_ascii_digit, push_str, strip_prefix, strip_prefix_spec, trim, trimmed};
use vstd::prelude::*;
use vstd::string::StrSliceExecFns;

verus! {

/// The message of a project that cannot be opened in Daylite.
pub open spec fn open_failed_message() -> Seq<char> {
    "Das Projekt konnte in Daylite nicht geöffnet werden."@
}

/// The numeric ID of a `/v1/projects/<digits>` reference (trimmed first).
pub open spec fn project_link_id(project_ref: Seq<char>) -> Option<Seq<char>> {
    match strip_prefix_spec(trimmed(project_ref), "/v1/projects/"@) {
        Some(id) => if id.len() > 0 && forall|k: int| 0 <= k < id.len() ==> is_ascii_digit(#[trigger] id[k]) {
            Some(id)
        } else {
            None
        },
        None => None,
    }
}

/// The deep link of a project reference: `daylite://Command=ShowObject&Entity=Project&ID=<id>`
/// for a `/v1/projects/<digits>` reference, the open-failed message otherwise.
/// The parameters sit where a URL's authority would, so no URL type may
/// normalise the text.
pub fn project_deep_link_url(project_ref: &str) -> (r: Result<String, String>)
    ensures
        match project_link_id(project_ref@) {
            Some(id) => r matches Ok(u) && u@ == "daylite://Command=ShowObject&Entity=Project&ID="@ + id,
            None => r matches Err(m) && m@ == open_failed_message(),
        },
{
    let t = trim(project_ref);
    let id = match strip_prefix(t.as_str(), "/v1/projects/") {
        Some(id) => id,
        None => return Err("Das Projekt konnte in Daylite nicht geöffnet werden.".to_owned()),
    };
    let n = id.as_str().unicode_len();
    if n == 0 {
        return Err("Das Projekt konnte in Daylite nicht geöffnet werden.".to_owned());
    }
    let mut i: usize = 0;
    while i < n
        invariant
            n == id@.len(),
            n > 0,
            strip_prefix_spec(trimmed(project_ref@), "/v1/projects/"@) == Some(id@),
            i <= n,
            forall|k: int| 0 <= k < i ==> is_ascii_digit(#[trigger] id@[k]),
        decreases n - i,
    {
        let c = id.as_str().get_char(i);
        if !('0' <= c && c <= '9') {
            assert(!is_ascii_digit(id@[i as int]));
            assert(strip_prefix_spec(trimmed(project_ref@), "/v1/projects/"@) == Some(id@));
            assert(project_link_id(project_ref@) is None);
            return Err("Das Projekt konnte in Daylite nicht geöffnet werden.".to_owned());
        }
        i = i + 1;
    }
    let mut url = "daylite://Command=ShowObject&Entity=Project&ID=".to_owned();
    push_str(&mut url, id.as_str());
    Ok(url)
}

} // verus!
