//! Names derived from user text: file names for exports and scenes, cache
//! keys, the start-up banner.
use vstd::prelude::*;
use crate::text::{chars_of, replace_char, replace_char_chars, string_of, trim, trim_char, trim_char_chars, trim_chars};

verus! {

/// Whether `c` has the Unicode `Alphabetic` or `Numeric` property, the
/// result of `char::is_alphanumeric`.
pub uninterp spec fn unicode_alphanumeric(c: char) -> bool;

/// `char::is_alphanumeric`. The contract ties the result to the name
/// [`unicode_alphanumeric`] and says nothing more of it.
#[verifier::external_body]
fn char_is_alphanumeric(c: char) -> (r: bool)
    ensures
        r == unicode_alphanumeric(c),
{
    c.is_alphanumeric()
}

pub open spec fn file_safe_char(c: char) -> char {
    if unicode_alphanumeric(c) || c == '_' || c == '-' {
        c
    } else {
        '_'
    }
}

/// Every character that is not alphanumeric, `_` or `-` replaced by `_`.
pub open spec fn spec_sanitize_filename(name: Seq<char>) -> Seq<char> {
    name.map_values(|c: char| file_safe_char(c))
}

fn sanitize_chars(name: &Vec<char>) -> (r: Vec<char>)
    ensures
        r@ == spec_sanitize_filename(name@),
{
    let mut r: Vec<char> = Vec::new();
    for i in 0..name.len()
        invariant
            r@ == spec_sanitize_filename(name@.take(i as int)),
    {
        let c = name[i];
        let d = if char_is_alphanumeric(c) || c == '_' || c == '-' {
            c
        } else {
            '_'
        };
        r.push(d);
        assert(spec_sanitize_filename(name@.take(i + 1)) =~= spec_sanitize_filename(
            name@.take(i as int),
        ).push(d));
    }
    assert(name@.take(name@.len() as int) == name@);
    r
}

/// A name usable as a file name: every character that is not alphanumeric,
/// `_` or `-` becomes `_`.
pub fn sanitize_filename(name: &str) -> (r: String)
    ensures
        r@ == spec_sanitize_filename(name@),
{
    string_of(&sanitize_chars(&chars_of(name)))
}

/// The file stem of a scene: the name with unsafe characters replaced by
/// `_`; `scene` when nothing but `_` is left.
pub open spec fn spec_sanitize_scene_name(name: Seq<char>) -> Seq<char> {
    let s = spec_sanitize_filename(name);
    if trim_char(s, '_').len() == 0 {
        "scene"@
    } else {
        s
    }
}

pub fn sanitize_scene_name(name: &str) -> (r: String)
    ensures
        r@ == spec_sanitize_scene_name(name@),
{
    let s = sanitize_chars(&chars_of(name));
    if trim_char_chars(&s, '_').len() == 0 {
        String::from_str("scene")
    } else {
        string_of(&s)
    }
}

/// The file a scene is saved to by default: its sanitized name with the
/// `.scene.json` extension.
pub fn default_scene_file_name(scene_name: &str) -> (r: String)
    ensures
        r@ == spec_sanitize_scene_name(scene_name@) + ".scene.json"@,
{
    let mut r = sanitize_scene_name(scene_name);
    r.append(".scene.json");
    r
}

/// The key under which a texture is cached: the path trimmed, with `\`
/// turned into `/`.
pub fn texture_cache_key(relative_path: &str) -> (r: String)
    ensures
        r@ == replace_char(trim(relative_path@), '\\', '/'),
{
    let t = trim_chars(&chars_of(relative_path));
    string_of(&replace_char_chars(&t, '\\', '/'))
}

/// The engine's name, version and release status.
pub const ENGINE_TITLE: &'static str = "RS2BR-Engine";

pub const ENGINE_VERSION: &'static str = "V0.9.0";

pub const ENGINE_STATUS: &'static str = "V0.9 - MVP";

/// `<title> <version> [<status>]`, that is `RS2BR-Engine V0.9.0 [V0.9 - MVP]`.
pub fn startup_message() -> (r: String)
    ensures
        r@ == ENGINE_TITLE@ + " "@ + ENGINE_VERSION@ + " ["@ + ENGINE_STATUS@ + "]"@,
{
    let mut s = String::from_str(ENGINE_TITLE);
    s.append(" ");
    s.append(ENGINE_VERSION);
    s.append(" [");
    s.append(ENGINE_STATUS);
    s.append("]");
    s
}

} // verus!
