//! Identifiers and display names of sessions.
use crate::model::SessionSpec;
use crate::model::SessionSpecView;
use crate::text::first_chars;
use crate::text::opt_text;
use vstd::prelude::*;
use vstd::string::StringExecFns;
use vstd::utf8::decode_utf8;
use vstd::utf8::encode_utf8;
use vstd::utf8::is_ascii_chars;
use vstd::utf8::is_char_boundary;

verus! {

// ---- identifiers -----------------------------------------------------------

/// Whether `c` is a hexadecimal digit in lower case.
pub open spec fn is_hex(c: char) -> bool {
    '0' <= c <= '9' || 'a' <= c <= 'f'
}

/// Where the hyphens stand in the text of a UUID.
pub open spec fn is_hyphen_place(i: int) -> bool {
    i == 8 || i == 13 || i == 18 || i == 23
}

/// Whether `s` is the hyphenated text of a random (version 4) UUID.
pub open spec fn is_uuid_v4(s: Seq<char>) -> bool {
    &&& s.len() == 36
    &&& forall|i: int|
        0 <= i < 36 ==> if is_hyphen_place(i) {
            #[trigger] s[i] == '-'
        } else {
            is_hex(s[i])
        }
    &&& s[14] == '4'
    &&& s[19] == '8' || s[19] == '9' || s[19] == 'a' || s[19] == 'b'
}

/// `Uuid::new_v4` and its `to_string`: the hyphenated lower-case text of a
/// random UUID. Which one it is depends on chance.
#[verifier::external_body]
fn random_uuid() -> (r: String)
    ensures
        is_uuid_v4(r@),
{
    uuid::Uuid::new_v4().to_string()
}

/// An identifier for a new session, task or snapshot.
pub fn fresh_id() -> (r: String)
    ensures
        is_uuid_v4(r@),
        has_short_id(r@),
        short_id(r@) == r@.take(SHORT_ID_BYTES as int),
{
    let id = random_uuid();
    proof {
        uuid_is_ascii(id@);
        ascii_short_id(id@);
    }
    id
}

// ---- names -----------------------------------------------------------------

/// How many bytes of its id a generated name shows.
pub const SHORT_ID_BYTES: usize = 4;

/// How many bytes the short form of an id has.
pub open spec fn short_id_len(sid: Seq<char>) -> int {
    if encode_utf8(sid).len() < SHORT_ID_BYTES {
        encode_utf8(sid).len() as int
    } else {
        SHORT_ID_BYTES as int
    }
}

/// Whether the short form of an id ends between two characters.
pub open spec fn has_short_id(sid: Seq<char>) -> bool {
    is_char_boundary(encode_utf8(sid), short_id_len(sid))
}

/// The first bytes of an id.
pub open spec fn short_id(sid: Seq<char>) -> Seq<char> {
    decode_utf8(encode_utf8(sid).subrange(0, short_id_len(sid)))
}

/// The name made from a directory's last component and an id.
pub open spec fn generated_name(base: Option<Seq<char>>, sid: Seq<char>) -> Seq<char> {
    (match base {
        Some(b) => b,
        None => "session"@,
    }) + "-"@ + short_id(sid)
}

/// Whether `piece` stands somewhere in `s`.
pub open spec fn is_piece(piece: Seq<char>, s: Seq<char>) -> bool {
    exists|i: int, j: int| 0 <= i <= j <= s.len() && #[trigger] s.subrange(i, j) == piece
}

/// Whether a character separates components: the slash does everywhere, the
/// backslash on some platforms.
pub open spec fn separates(c: char, backslash: bool) -> bool {
    c == '/' || (backslash && c == '\\')
}

/// A path without the separators, and the separators followed by a dot, at its
/// end.
pub open spec fn without_tail(path: Seq<char>, backslash: bool) -> Seq<char>
    decreases path.len(),
{
    let n = path.len() as int;
    if n > 0 && separates(path[n - 1], backslash) {
        without_tail(path.take(n - 1), backslash)
    } else if n > 1 && path[n - 1] == '.' && separates(path[n - 2], backslash) {
        without_tail(path.take(n - 2), backslash)
    } else {
        path
    }
}

/// What follows the last separator.
pub open spec fn after_last_separator(path: Seq<char>, backslash: bool) -> Seq<char>
    decreases path.len(),
{
    if path.len() == 0 || separates(path.last(), backslash) {
        Seq::empty()
    } else {
        after_last_separator(path.drop_last(), backslash).push(path.last())
    }
}

/// The last component of a path without a prefix; the current and the parent
/// directory are none.
pub open spec fn component(path: Seq<char>, backslash: bool) -> Option<Seq<char>> {
    let name = after_last_separator(without_tail(path, backslash), backslash);
    if name.len() == 0 || name == "."@ || name == ".."@ {
        None
    } else {
        Some(name)
    }
}

/// Whether a path begins with a letter and a colon.
pub open spec fn has_drive(path: Seq<char>) -> bool {
    &&& path.len() >= 2
    &&& 'a' <= path[0] <= 'z' || 'A' <= path[0] <= 'Z'
    &&& path[1] == ':'
}

/// A path without its drive, if it has one.
pub open spec fn after_drive(path: Seq<char>) -> Seq<char> {
    if has_drive(path) {
        path.skip(2)
    } else {
        path
    }
}

/// Whether a path begins with two separators of either kind, which may introduce
/// a network share or a device.
pub open spec fn begins_with_two(path: Seq<char>) -> bool {
    path.len() >= 2 && separates(path[0], true) && separates(path[1], true)
}

/// Whether a path is read alike on every platform: the slash is the only
/// separator in it, and nothing in it can be a prefix.
pub open spec fn is_plain_path(path: Seq<char>) -> bool {
    !path.contains('\\') && !path.contains(':') && !begins_with_two(path)
}

/// What follows the last slash, backslash or colon.
pub open spec fn last_piece(path: Seq<char>) -> Seq<char>
    decreases path.len(),
{
    if path.len() == 0 || separates(path.last(), true) || path.last() == ':' {
        Seq::empty()
    } else {
        last_piece(path.drop_last()).push(path.last())
    }
}

/// Whether `s` ends with `end`.
pub open spec fn ends_with(s: Seq<char>, end: Seq<char>) -> bool {
    s.len() >= end.len() && s.skip(s.len() - end.len()) == end
}

/// Whether `base` can be the last component of a path. Of a plain path that is
/// one thing. Of another that does not begin with two separators it is one of
/// two: by slashes alone, or by slashes and backslashes after the drive; whatever
/// the reading, it ends with the last piece. Of any path it is a part that is
/// neither empty nor the parent directory, or nothing.
pub open spec fn is_component(base: Option<Seq<char>>, path: Seq<char>) -> bool {
    let piece = last_piece(path);
    &&& is_plain_path(path) ==> base == component(path, false)
    &&& !begins_with_two(path) && (path.len() >= 2 && path[1] == ':' ==> has_drive(path)) ==> base
        == component(path, false) || base == component(after_drive(path), true)
    &&& !begins_with_two(path) && piece.len() > 0 && piece != "."@ && piece != ".."@ ==> base is Some
        && ends_with(base->0, piece)
    &&& match base {
        Some(b) => b.len() > 0 && is_piece(b, path) && b != ".."@,
        None => true,
    }
}

/// `Path::file_name`: the last component of a path, if there is one. A slash
/// separates components everywhere; on some platforms a backslash does too, and
/// a drive, a share or a device stands before the components. Which platform it
/// is, and what is a share or a device, is left open.
#[verifier::external_body]
fn last_component(path: &str) -> (r: Option<String>)
    ensures
        is_component(opt_text(r), path@),
{
    std::path::Path::new(path).file_name().map(|s| s.to_string_lossy().into_owned())
}

/// The name made from a directory's last component and an id.
pub fn name_from_base(base: &Option<String>, sid: &str) -> (r: String)
    requires
        has_short_id(sid@),
    ensures
        r@ == generated_name(opt_text(*base), sid@),
{
    let n: usize = sid.as_bytes().len();
    let k: usize = if n < SHORT_ID_BYTES { n } else { SHORT_ID_BYTES };
    let (short, _) = sid.split_at(k);
    proof {
        broadcast use vstd::utf8::encode_utf8_decode_utf8;

        assert(decode_utf8(encode_utf8(short@)) == short@);
        assert(short@ == short_id(sid@));
    }
    let mut name = match base {
        Some(b) => b.clone(),
        None => "session".to_owned(),
    };
    name.append("-");
    name.append(short);
    name
}

/// The name of a session that was given none: the last component of its
/// directory and the start of its id.
pub fn default_name(cwd: &str, sid: &str) -> (r: String)
    requires
        has_short_id(sid@),
    ensures
        exists|base: Option<Seq<char>>|
            is_component(base, cwd@) && r@ == #[trigger] generated_name(base, sid@),
{
    let base = last_component(cwd);
    name_from_base(&base, sid)
}

/// An id in ASCII, as every generated one is, has a short form: its first
/// characters.
pub proof fn ascii_short_id(sid: Seq<char>)
    requires
        is_ascii_chars(sid),
    ensures
        has_short_id(sid),
        short_id(sid) == first_chars(sid, SHORT_ID_BYTES as int),
{
    broadcast use vstd::utf8::is_ascii_chars_encode_utf8;
    broadcast use vstd::utf8::encode_utf8_decode_utf8;
    broadcast use vstd::utf8::encode_utf8_valid_utf8;

    let bytes = encode_utf8(sid);
    let front = first_chars(sid, SHORT_ID_BYTES as int);
    assert(is_ascii_chars(front));
    assert(encode_utf8(front) =~= bytes.subrange(0, short_id_len(sid))) by {
        assert forall|i: int| 0 <= i < front.len() implies encode_utf8(front)[i] == bytes[i] by {
            assert(front[i] == sid[i]);
        }
    }
    if short_id_len(sid) < bytes.len() {
        let k = short_id_len(sid);
        let c = sid[k];
        assert(bytes[k] == c as u8);
        assert(bytes[k] < 128) by {
            assert(sid[k] as u32 <= 127);
        }
        vstd::utf8::is_char_boundary_iff_not_is_continuation_byte(bytes, k);
    } else {
        vstd::utf8::is_char_boundary_start_end_of_seq(bytes);
    }
}

/// A generated id is in ASCII.
pub proof fn uuid_is_ascii(s: Seq<char>)
    requires
        is_uuid_v4(s),
    ensures
        is_ascii_chars(s),
{
    assert forall|i: int| 0 <= i < s.len() implies '\0' <= #[trigger] s[i] <= '\u{7f}' by {
        if is_hyphen_place(i) {
            assert(s[i] == '-');
        } else {
            assert(is_hex(s[i]));
        }
    }
}

/// Whether `name` is the name of a session with this spec and id: the one it was
/// given, else a generated one.
pub open spec fn is_name_of(name: Seq<char>, spec: SessionSpecView, sid: Seq<char>) -> bool {
    match spec.name {
        Some(n) => name == n,
        None => exists|base: Option<Seq<char>>|
            is_component(base, spec.cwd) && name == #[trigger] generated_name(base, sid),
    }
}

/// The name of a session: the one it was given, else a generated one.
pub fn session_name(spec: &SessionSpec, sid: &str) -> (r: String)
    requires
        has_short_id(sid@),
    ensures
        is_name_of(r@, spec@, sid@),
{
    match &spec.name {
        Some(n) => n.clone(),
        None => default_name(spec.cwd.as_str(), sid),
    }
}

} // verus!
