//! Plain text of a chat component, by azalea-chat.
use vstd::prelude::*;
use crate::json::{get_member, member, JsonValue};
use crate::text::lit;

verus! {

/// How deep a component may nest and still be rendered.
pub const RENDER_DEPTH: u32 = crate::json::NESTING_LIMIT;

/// The component `v`, within `depth` levels of nesting, can be read and
/// rendered by azalea-chat without a panic. The rule is conservative:
/// - a translatable component (`translate`) is refused, since rendering one
///   whose template has a digit after `%` fails inside `to_string`;
/// - an object with none of `text`, `translate`, `score`, `selector`,
///   `keybind`, `object` but with `nbt` is refused, since its `interpret`
///   member is unwrapped as a bool;
/// - a text component is safe when each component of an `extra` array is;
/// - an array is safe when each item is; every other value is read as text.
pub open spec fn renders_safely(v: JsonValue, depth: nat) -> bool
    decreases depth,
{
    if depth == 0 {
        false
    } else {
        match v {
            JsonValue::Array(a) => forall|i: int| 0 <= i < a@.len() ==> renders_safely(#[trigger] a@[i], (depth - 1) as nat),
            JsonValue::Object(m) => if member(m@, "text"@) is Some {
                match member(m@, "extra"@) {
                    Some(JsonValue::Array(e)) => forall|i: int| 0 <= i < e@.len()
                        ==> renders_safely(#[trigger] e@[i], (depth - 1) as nat),
                    _ => true,
                }
            } else if member(m@, "translate"@) is Some {
                false
            } else if member(m@, "score"@) is Some || member(m@, "selector"@) is Some
                || member(m@, "keybind"@) is Some || member(m@, "object"@) is Some {
                true
            } else {
                member(m@, "nbt"@) is None
            },
            _ => true,
        }
    }
}

fn all_render(items: &Vec<JsonValue>, depth: u32) -> (r: bool)
    requires
        depth > 0,
    ensures
        r == forall|i: int| 0 <= i < items@.len() ==> renders_safely(#[trigger] items@[i], (depth - 1) as nat),
    decreases depth, 0nat,
{
    let mut i: usize = 0;
    while i < items.len()
        invariant
            depth > 0,
            i <= items.len(),
            forall|t: int| 0 <= t < i ==> renders_safely(#[trigger] items@[t], (depth - 1) as nat),
        decreases items.len() - i,
    {
        if !check_renders(&items[i], depth - 1) {
            return false;
        }
        i += 1;
    }
    true
}

/// Whether azalea-chat can render `v` within `depth` levels.
pub fn check_renders(v: &JsonValue, depth: u32) -> (r: bool)
    ensures
        r == renders_safely(*v, depth as nat),
    decreases depth, 1nat,
{
    if depth == 0 {
        return false;
    }
    match v {
        JsonValue::Array(a) => all_render(a, depth),
        JsonValue::Object(m) => {
            if get_member(m, &lit("text")).is_some() {
                match get_member(m, &lit("extra")) {
                    Some(JsonValue::Array(e)) => all_render(e, depth),
                    _ => true,
                }
            } else if get_member(m, &lit("translate")).is_some() {
                false
            } else if get_member(m, &lit("score")).is_some() || get_member(m, &lit("selector")).is_some()
                || get_member(m, &lit("keybind")).is_some() || get_member(m, &lit("object")).is_some() {
                true
            } else {
                get_member(m, &lit("nbt")).is_none()
            }
        },
        _ => true,
    }
}

/// A name for the unformatted text that azalea-chat renders for a chat
/// component given as JSON (the empty component where it does not read as one).
pub uninterp spec fn plain_text(v: JsonValue) -> Seq<char>;

/// Relies on azalea_chat::FormattedText's Deserialize (falling back to its
/// Default) and its Display, which renders the text without styling: the
/// result depends on the value alone. Only components that render safely are
/// handed over (see `renders_safely`).
#[verifier::external_body]
pub(crate) fn to_plain_text(v: &JsonValue) -> (r: String)
    requires
        renders_safely(*v, RENDER_DEPTH as nat),
    ensures
        r@ == plain_text(*v),
{
    <azalea_chat::FormattedText as serde::Deserialize>::deserialize(&crate::json::serde_value(v)).unwrap_or_default().to_string()
}

} // verus!
