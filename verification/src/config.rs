//! Provider configuration.

use vstd::prelude::*;
use vstd::string::*;

verus! {

/// The outer shape of a JSON value: as much as an empty configuration is told
/// by.
#[derive(Clone, Copy, Debug, PartialEq, Eq, Structural)]
pub enum JsonShape {
    Null,
    /// An object with that many keys.
    Object(usize),
    Other,
}

/// The shape of the value that a text begins with, or why it begins with none.
pub uninterp spec fn leading_json(text: Seq<char>) -> core::result::Result<JsonShape, Seq<char>>;

/// Why a text is not one JSON value and nothing more, if it is not.
pub uninterp spec fn json_error(text: Seq<char>) -> Option<Seq<char>>;

/// A shape, or the reason as text.
pub open spec fn shape_of(r: core::result::Result<JsonShape, String>) -> core::result::Result<
    JsonShape,
    Seq<char>,
> {
    match r {
        Ok(shape) => Ok(shape),
        Err(why) => Err(why@),
    }
}

/// `serde_json::Value::deserialize` on a `serde_json::Deserializer` over the
/// text: whether the text begins with a JSON value, what sort of value that
/// is, and how a rejection reads depend on the text alone. What follows the
/// value is not looked at. Which texts begin with a value is left unsaid.
#[verifier::external_body]
fn read_value(text: &str) -> (r: core::result::Result<JsonShape, String>)
    ensures
        shape_of(r) == leading_json(text@),
{
    let mut reader = serde_json::Deserializer::from_str(text);
    match <serde_json::Value as serde::Deserialize>::deserialize(&mut reader) {
        Ok(serde_json::Value::Null) => Ok(JsonShape::Null),
        Ok(serde_json::Value::Object(map)) => Ok(JsonShape::Object(map.len())),
        Ok(_) => Ok(JsonShape::Other),
        Err(e) => Err(e.to_string()),
    }
}

/// `serde_json::from_str` into `serde_json::Value`: whether the text is one
/// JSON value with nothing but blanks behind it, and how a rejection reads,
/// depend on the text alone. Which texts are JSON is left unsaid.
#[verifier::external_body]
fn check_json(text: &str) -> (r: core::result::Result<(), String>)
    ensures
        json_error(text@) == (match r {
            Ok(_) => None,
            Err(why) => Some(why@),
        }),
{
    match serde_json::from_str::<serde_json::Value>(text) {
        Ok(_) => Ok(()),
        Err(e) => Err(e.to_string()),
    }
}

/// Empty provider configuration.
///
/// The host sends `{}` when a mount has no provider-specific config. A unit
/// would read from JSON `null` alone, so providers with no config use
/// `NoConfig` instead.
#[derive(Clone, Copy, Debug, Default, PartialEq, Eq, Structural)]
pub struct NoConfig;

/// The shapes that stand for an empty configuration.
pub open spec fn empty_config(shape: JsonShape) -> bool {
    shape == JsonShape::Null || shape == JsonShape::Object(0)
}

/// Why a text is no empty configuration, if it is not: it begins with no
/// value, the value is not empty, or something is wrong behind the value.
pub open spec fn config_error(
    leading: core::result::Result<JsonShape, Seq<char>>,
    whole: Option<Seq<char>>,
) -> Option<Seq<char>> {
    match leading {
        Err(why) => Some(why),
        Ok(shape) => if empty_config(shape) {
            whole
        } else {
            Some("expected empty provider config object"@)
        },
    }
}

impl NoConfig {
    /// Accepts `null` and the empty object.
    pub fn from_shape(shape: JsonShape) -> (r: core::result::Result<Self, String>)
        ensures
            r is Ok == empty_config(shape),
            r matches Err(e) ==> e@ == "expected empty provider config object"@,
    {
        match shape {
            JsonShape::Null => Ok(NoConfig),
            JsonShape::Object(keys) => if keys == 0 {
                Ok(NoConfig)
            } else {
                Err("expected empty provider config object".to_owned())
            },
            JsonShape::Other => Err("expected empty provider config object".to_owned()),
        }
    }

    /// Accepts a leading value of that shape if nothing is wrong with the
    /// text as a whole. A value that is no empty configuration is reported
    /// before anything that follows it.
    pub fn from_reading(
        leading: core::result::Result<JsonShape, String>,
        whole: core::result::Result<(), String>,
    ) -> (r: core::result::Result<Self, String>)
        ensures
            config_error(
                shape_of(leading),
                match whole {
                    Ok(_) => None,
                    Err(why) => Some(why@),
                },
            ) == (match r {
                Ok(_) => None,
                Err(e) => Some(e@),
            }),
    {
        match leading {
            Ok(shape) => match Self::from_shape(shape) {
                Ok(config) => match whole {
                    Ok(_) => Ok(config),
                    Err(why) => Err(why),
                },
                Err(why) => Err(why),
            },
            Err(why) => Err(why),
        }
    }

    /// Reads a configuration from its JSON text.
    pub fn from_json(text: &str) -> (r: core::result::Result<Self, String>)
        ensures
            config_error(leading_json(text@), json_error(text@)) == (match r {
                Ok(_) => None,
                Err(e) => Some(e@),
            }),
    {
        Self::from_reading(read_value(text), check_json(text))
    }
}

/// A provider without configuration accepts exactly a text that is JSON as a
/// whole and starts with `null` or an empty object.
pub proof fn law_only_an_empty_config_is_accepted(
    leading: core::result::Result<JsonShape, Seq<char>>,
    whole: Option<Seq<char>>,
)
    ensures
        config_error(leading, whole) is None <==> whole is None && (leading matches Ok(shape) && (
        shape == JsonShape::Null || shape == JsonShape::Object(0))),
        leading matches Err(why) ==> config_error(leading, whole) == Some(why),
{
}

} // verus!
