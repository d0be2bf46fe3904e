//! Content types of leaves and wire payloads.

use vstd::prelude::*;
use vstd::string::*;

use crate::text;

verus! {

/// A content type: one of the named formats, or any other mime type.
#[derive(Clone, Copy, Debug, PartialEq, Eq)]
pub enum ContentType {
    Json,
    Markdown,
    Octet,
    Atom,
    Custom(&'static str),
}

/// Which content type it is; a custom one is known by its mime type.
pub enum ContentModel {
    Json,
    Markdown,
    Octet,
    Atom,
    Custom(Seq<char>),
}

impl View for ContentType {
    type V = ContentModel;

    open spec fn view(&self) -> ContentModel {
        match self {
            ContentType::Json => ContentModel::Json,
            ContentType::Markdown => ContentModel::Markdown,
            ContentType::Octet => ContentModel::Octet,
            ContentType::Atom => ContentModel::Atom,
            ContentType::Custom(mime) => ContentModel::Custom(mime@),
        }
    }
}

/// The model of an optional content type.
pub open spec fn content_of(ct: Option<ContentType>) -> Option<ContentModel> {
    match ct {
        Some(ct) => Some(ct@),
        None => None,
    }
}

impl ContentModel {
    /// The mime type.
    pub open spec fn mime(self) -> Seq<char> {
        match self {
            ContentModel::Json => "application/json"@,
            ContentModel::Markdown => "text/markdown"@,
            ContentModel::Octet => "application/octet-stream"@,
            ContentModel::Atom => "application/atom+xml"@,
            ContentModel::Custom(mime) => mime,
        }
    }

    /// The standard file name extension, for the types that have one.
    pub open spec fn extension(self) -> Option<Seq<char>> {
        match self {
            ContentModel::Json => Some("json"@),
            ContentModel::Markdown => Some("md"@),
            ContentModel::Octet => None,
            ContentModel::Atom => Some("atom"@),
            ContentModel::Custom(mime) => if mime == "text/plain"@ {
                Some("txt"@)
            } else if mime == "text/html"@ {
                Some("html"@)
            } else if mime == "text/x-diff"@ {
                Some("diff"@)
            } else if mime == "application/yaml"@ {
                Some("yaml"@)
            } else {
                None
            },
        }
    }

    /// The extension of a leaf of this type.
    pub open spec fn leaf_extension(self) -> Seq<char> {
        match self.extension() {
            Some(extension) => extension,
            None => "raw"@,
        }
    }
}

impl ContentType {
    /// Whether two content types are the same.
    pub fn same(self, other: Self) -> (r: bool)
        ensures
            r == (self@ == other@),
    {
        match (self, other) {
            (ContentType::Json, ContentType::Json) => true,
            (ContentType::Markdown, ContentType::Markdown) => true,
            (ContentType::Octet, ContentType::Octet) => true,
            (ContentType::Atom, ContentType::Atom) => true,
            (ContentType::Custom(a), ContentType::Custom(b)) => text::same(a, b),
            _ => false,
        }
    }

    /// The mime type.
    pub fn as_mime(self) -> (r: &'static str)
        ensures
            r@ == self@.mime(),
    {
        match self {
            ContentType::Json => "application/json",
            ContentType::Markdown => "text/markdown",
            ContentType::Octet => "application/octet-stream",
            ContentType::Atom => "application/atom+xml",
            ContentType::Custom(mime) => mime,
        }
    }

    /// The named format with this mime type.
    pub fn from_mime(mime: &str) -> (r: Option<Self>)
        ensures
            content_of(r) == mime_format(mime@),
    {
        proof {
            lemma_mimes_differ();
        }
        if text::same(mime, "application/json") {
            Some(ContentType::Json)
        } else if text::same(mime, "text/markdown") {
            Some(ContentType::Markdown)
        } else if text::same(mime, "application/octet-stream") {
            Some(ContentType::Octet)
        } else if text::same(mime, "application/atom+xml") {
            Some(ContentType::Atom)
        } else {
            None
        }
    }

    /// The standard file name extension, for the types that have one.
    pub fn extension(self) -> (r: Option<&'static str>)
        ensures
            match self@.extension() {
                Some(extension) => r matches Some(e) && e@ == extension,
                None => r is None,
            },
    {
        match self {
            ContentType::Json => Some("json"),
            ContentType::Markdown => Some("md"),
            ContentType::Octet => None,
            ContentType::Atom => Some("atom"),
            ContentType::Custom(mime) => {
                if text::same(mime, "text/plain") {
                    Some("txt")
                } else if text::same(mime, "text/html") {
                    Some("html")
                } else if text::same(mime, "text/x-diff") {
                    Some("diff")
                } else if text::same(mime, "application/yaml") {
                    Some("yaml")
                } else {
                    None
                }
            },
        }
    }

    /// The extension of a leaf of this type: the standard one, or `raw`.
    pub fn leaf_extension(self) -> (r: &'static str)
        ensures
            r@ == self@.leaf_extension(),
    {
        match self.extension() {
            Some(extension) => extension,
            None => "raw",
        }
    }

    /// The type in `{:?}` form.
    pub fn debug(self) -> (r: String)
        ensures
            r@ == self@.debug(),
    {
        match self {
            ContentType::Json => "Json".to_owned(),
            ContentType::Markdown => "Markdown".to_owned(),
            ContentType::Octet => "Octet".to_owned(),
            ContentType::Atom => "Atom".to_owned(),
            ContentType::Custom(mime) => text::concat3(
                "Custom(",
                text::debug_quoted(mime).as_str(),
                ")",
            ),
        }
    }
}

impl ContentModel {
    /// The type in `{:?}` form.
    pub open spec fn debug(self) -> Seq<char> {
        match self {
            ContentModel::Json => "Json"@,
            ContentModel::Markdown => "Markdown"@,
            ContentModel::Octet => "Octet"@,
            ContentModel::Atom => "Atom"@,
            ContentModel::Custom(mime) => "Custom("@ + text::quoted(mime) + ")"@,
        }
    }
}

/// The named format with a mime type.
pub open spec fn mime_format(mime: Seq<char>) -> Option<ContentModel> {
    if mime == ContentModel::Json.mime() {
        Some(ContentModel::Json)
    } else if mime == ContentModel::Markdown.mime() {
        Some(ContentModel::Markdown)
    } else if mime == ContentModel::Octet.mime() {
        Some(ContentModel::Octet)
    } else if mime == ContentModel::Atom.mime() {
        Some(ContentModel::Atom)
    } else {
        None
    }
}

/// The named formats have different mime types.
proof fn lemma_mimes_differ()
    ensures
        "application/json"@ != "text/markdown"@,
        "application/json"@ != "application/octet-stream"@,
        "application/json"@ != "application/atom+xml"@,
        "text/markdown"@ != "application/octet-stream"@,
        "text/markdown"@ != "application/atom+xml"@,
        "application/octet-stream"@ != "application/atom+xml"@,
{
    reveal_strlit("application/json");
    reveal_strlit("text/markdown");
    reveal_strlit("application/octet-stream");
    reveal_strlit("application/atom+xml");
    assert("application/json"@.len() == 16);
    assert("text/markdown"@.len() == 13);
    assert("application/octet-stream"@.len() == 24);
    assert("application/atom+xml"@.len() == 20);
}

/// A named format is read back from its mime type.
pub proof fn law_mime_round_trip(ct: ContentModel)
    requires
        !(ct is Custom),
    ensures
        mime_format(ct.mime()) == Some(ct),
{
    lemma_mimes_differ();
}

/// A mime type names a format only where it is that format's own mime type,
/// and never a custom one.
pub proof fn law_mime_names_its_own_format(mime: Seq<char>)
    ensures
        mime_format(mime) matches Some(ct) ==> ct.mime() == mime && !(ct is Custom),
        mime_format(mime) is None ==> mime != ContentModel::Json.mime() && mime
            != ContentModel::Markdown.mime() && mime != ContentModel::Octet.mime() && mime
            != ContentModel::Atom.mime(),
{
}

/// A leaf has the standard extension of its type, and `raw` where the type has
/// none; the named formats have extensions of their own.
pub proof fn law_leaf_extensions(ct: ContentModel, other: ContentModel)
    ensures
        ct.extension() matches Some(extension) ==> ct.leaf_extension() == extension,
        ct.extension() is None ==> ct.leaf_extension() == "raw"@,
        ct is Octet ==> ct.extension() is None,
        !(ct is Custom) && !(other is Custom) && ct != other ==> ct.leaf_extension()
            != other.leaf_extension(),
{
    reveal_strlit("json");
    reveal_strlit("md");
    reveal_strlit("atom");
    reveal_strlit("raw");
    assert("json"@.len() == 4 && "md"@.len() == 2 && "atom"@.len() == 4 && "raw"@.len() == 3);
    assert("json"@[0] == 'j' && "atom"@[0] == 'a');
}

} // verus!
