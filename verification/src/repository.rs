//! Request plumbing shared by the persistence-facing services: typed
//! identifier requests assembled from multipart metadata fields, and
//! completion of the database URI with a percent-encoded password.

use vstd::prelude::*;
use vstd::string::StrSliceExecFns;
use vstd::string::StringExecFns;

use crate::errors::ErrorKind;
use crate::numbers::{parse_i32, parse_i32_spec};
use crate::text::{find_sub, find_substring, str_eq};

verus! {

/// What a mutating request asks for.
#[derive(PartialEq, Eq, Structural, Clone, Copy, Debug)]
pub enum IdentifierAction {
    UPDATE,
    DELETE,
}

impl Default for IdentifierAction {
    fn default() -> (r: Self)
        ensures
            r == IdentifierAction::UPDATE,
    {
        IdentifierAction::UPDATE
    }
}

/// The identifying part of a mutating request: an optional row id and the
/// action to take.
#[derive(PartialEq, Debug)]
pub struct IdentifierRequest {
    pub id: Option<i32>,
    pub action: IdentifierAction,
}

impl Default for IdentifierRequest {
    fn default() -> (r: Self)
        ensures
            r.id is None,
            r.action == IdentifierAction::UPDATE,
    {
        IdentifierRequest { id: None, action: IdentifierAction::UPDATE }
    }
}

/// A mutating request: the typed body and the identifying part.
pub struct ActionRequest<T: Default> {
    pub body: T,
    pub idr: IdentifierRequest,
}

/// Apply one metadata field of a mutating request to the identifier part:
/// `id` must parse as a row id, `action` must be `update` or `delete`, and
/// any other field name is malformed. On failure the request is unchanged.
pub fn apply_metadata_field(idr: &mut IdentifierRequest, name: &str, text: &str) -> (r: Result<
    (),
    ErrorKind,
>)
    ensures
        name@ == "id"@ ==> (match parse_i32_spec(text@) {
            Ok(v) => r is Ok && final(idr).id == Some(v) && final(idr).action == old(idr).action,
            Err(e) => r == Err::<(), ErrorKind>(e) && *final(idr) == *old(idr),
        }),
        name@ == "action"@ ==> ((text@ == "update"@ ==> r is Ok && final(idr).action
            == IdentifierAction::UPDATE && final(idr).id == old(idr).id) && (text@ == "delete"@
            ==> r is Ok && final(idr).action == IdentifierAction::DELETE && final(idr).id
            == old(idr).id) && ((text@ != "update"@ && text@ != "delete"@) ==> r == Err::<(), ErrorKind>(
            ErrorKind::Malformed,
        ) && *final(idr) == *old(idr))),
        (name@ != "id"@ && name@ != "action"@) ==> r == Err::<(), ErrorKind>(ErrorKind::Malformed)
            && *final(idr) == *old(idr),
{
    proof {
        reveal_strlit("id");
        reveal_strlit("action");
        reveal_strlit("update");
        reveal_strlit("delete");
        assert("id"@.len() != "action"@.len());
        assert("update"@[0] != "delete"@[0]);
    }
    if str_eq(name, "id") {
        match parse_i32(text) {
            Ok(v) => {
                idr.id = Some(v);
                Ok(())
            },
            Err(e) => Err(e),
        }
    } else if str_eq(name, "action") {
        if str_eq(text, "update") {
            idr.action = IdentifierAction::UPDATE;
            Ok(())
        } else if str_eq(text, "delete") {
            idr.action = IdentifierAction::DELETE;
            Ok(())
        } else {
            Err(ErrorKind::Malformed)
        }
    } else {
        Err(ErrorKind::Malformed)
    }
}

/// The result the percent encoder returns for a text, as a function of the
/// text alone.
pub uninterp spec fn percent_encoded(s: Seq<char>) -> Seq<char>;

/// Relies on `percent_encoding::utf8_percent_encode` with the
/// `NON_ALPHANUMERIC` set: the encoding is a function of the input text
/// alone, and an empty input encodes to the empty string.
#[verifier::external_body]
fn percent_encode_all(s: &str) -> (r: String)
    ensures
        r@ == percent_encoded(s@),
        s@.len() == 0 ==> r@.len() == 0,
{
    percent_encoding::utf8_percent_encode(s, percent_encoding::NON_ALPHANUMERIC).to_string()
}

/// Complete a database URI by inserting the percent-encoded password just
/// before the first `@`. A URI without `@` is unusable configuration and is
/// rejected unchanged.
pub fn complete_db_uri(db_uri: &mut String, pw: String) -> (r: Result<String, ErrorKind>)
    ensures
        (match find_sub(old(db_uri)@, seq!['@']) {
            Some(i) => final(db_uri)@ == old(db_uri)@.take(i) + percent_encoded(pw@)
                + old(db_uri)@.skip(i) && (r matches Ok(out) && out@ == final(db_uri)@),
            None => r == Err::<String, ErrorKind>(ErrorKind::ConfigurationMissing)
                && final(db_uri)@ == old(db_uri)@,
        }),
{
    proof {
        reveal_strlit("@");
        assert("@"@ =~= seq!['@']);
    }
    let src = db_uri.clone();
    let i = match find_substring(src.as_str(), "@") {
        Some(i) => i,
        None => {
            return Err(ErrorKind::ConfigurationMissing);
        },
    };
    let len = src.as_str().unicode_len();
    let encoded = percent_encode_all(pw.as_str());
    let mut out = String::from_str(src.as_str().substring_char(0, i));
    out.append(encoded.as_str());
    out.append(src.as_str().substring_char(i, len));
    proof {
        assert(src@.subrange(0, i as int) =~= src@.take(i as int));
        assert(src@.subrange(i as int, len as int) =~= src@.skip(i as int));
    }
    *db_uri = out.clone();
    Ok(out)
}

} // verus!
