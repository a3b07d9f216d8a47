//! What a manifest's source text adds to the structured manifest: the
//! automatic discovery of targets that it switches off, and its comments.

use vstd::prelude::*;
use crate::comments::{comment_blocks, scan, scan_comments, CommentMap};

verus! {

/// What is read from a manifest's source text.
pub struct ManifestExtra {
    pub autobenches: bool,
    pub autobins: bool,
    pub autoexamples: bool,
    pub autotests: bool,
    pub comments: CommentMap,
}

pub struct ManifestExtraView {
    pub autobenches: bool,
    pub autobins: bool,
    pub autoexamples: bool,
    pub autotests: bool,
    pub comments: Map<Seq<char>, Seq<Seq<char>>>,
}

impl View for ManifestExtra {
    type V = ManifestExtraView;

    open spec fn view(&self) -> ManifestExtraView {
        ManifestExtraView {
            autobenches: self.autobenches,
            autobins: self.autobins,
            autoexamples: self.autoexamples,
            autotests: self.autotests,
            comments: self.comments@,
        }
    }
}

/// Why a source text gives no `ManifestExtra`.
#[derive(Debug)]
pub enum ParseError {
    /// The text is no TOML document; `message` is the parser's report.
    Syntax { message: String },
    /// The document has no `package` entry.
    NoPackage,
}

/// `toml::Value`, a parsed TOML value. Nothing of its inside is seen here;
/// what the contracts say of one, they say through `held`.
#[verifier::external_type_specification]
#[verifier::external_body]
pub struct ExTomlValue(toml::Value);

/// `toml::de::Error`, the parser's report of a text that is no TOML
/// document. It is carried to `error_message` and nowhere else.
#[verifier::external_type_specification]
#[verifier::external_body]
pub struct ExTomlError(toml::de::Error);

/// What a TOML value holds, by the paths of keys that lead into it through
/// tables. The value itself stands at the empty path. At each path stands
/// `Some(b)` where the value there is the boolean `b`, and `None` where it
/// is anything else.
pub uninterp spec fn held(value: toml::Value) -> Map<Seq<Seq<char>>, Option<bool>>;

/// What the TOML document `text` holds; `None` where `text` is no TOML
/// document.
pub uninterp spec fn document(text: Seq<char>) -> Option<Map<Seq<Seq<char>>, Option<bool>>>;

/// What stands below the key `key` in `all`.
pub open spec fn below(all: Map<Seq<Seq<char>>, Option<bool>>, key: Seq<char>) -> Map<
    Seq<Seq<char>>,
    Option<bool>,
> {
    Map::new(
        |path: Seq<Seq<char>>| all.contains_key(seq![key] + path),
        |path: Seq<Seq<char>>| all[seq![key] + path],
    )
}

/// The boolean that a value is: what it holds at the empty path.
pub open spec fn itself(all: Map<Seq<Seq<char>>, Option<bool>>) -> Option<bool> {
    if all.contains_key(Seq::empty()) {
        all[Seq::empty()]
    } else {
        None
    }
}

/// The switch `key` of the table `table`: on unless the table holds the
/// boolean `false` under `key`.
pub open spec fn switch(table: Map<Seq<Seq<char>>, Option<bool>>, key: Seq<char>) -> bool {
    if table.contains_key(seq![key]) {
        match table[seq![key]] {
            Some(b) => b,
            None => true,
        }
    } else {
        true
    }
}

/// What a document that holds `doc` adds to the manifest, with the comments
/// `comments`; `None` where it has no `package` entry.
pub open spec fn extra_of(
    doc: Map<Seq<Seq<char>>, Option<bool>>,
    comments: Map<Seq<char>, Seq<Seq<char>>>,
) -> Option<ManifestExtraView> {
    if doc.contains_key(seq!["package"@]) {
        let package = below(doc, "package"@);
        Some(
            ManifestExtraView {
                autobenches: switch(package, "autobenches"@),
                autobins: switch(package, "autobins"@),
                autoexamples: switch(package, "autoexamples"@),
                autotests: switch(package, "autotests"@),
                comments,
            },
        )
    } else {
        None
    }
}

/// `toml::from_str` reads `text` as a TOML document. It looks at nothing
/// but `text`, so whether it accepts and what the document holds depend on
/// `text` alone: this contract names both.
#[verifier::external_body]
fn parse_document(text: &str) -> (r: Result<toml::Value, toml::de::Error>)
    ensures
        match r {
            Ok(value) => document(text@) == Some(held(value)),
            Err(_) => document(text@) is None,
        },
{
    toml::from_str::<toml::Value>(text)
}

/// `toml::Value::get` with a string key gives the entry of that key where
/// the value is a table that has one, and nothing otherwise. What the entry
/// holds is what the table holds below the key.
#[verifier::external_body]
fn value_get<'a>(value: &'a toml::Value, key: &str) -> (r: Option<&'a toml::Value>)
    ensures
        match r {
            Some(entry) => held(*value).contains_key(seq![key@]) && held(*entry) == below(
                held(*value),
                key@,
            ),
            None => !held(*value).contains_key(seq![key@]),
        },
{
    value.get(key)
}

/// `toml::Value::as_bool` gives the boolean that the value is, and nothing
/// where it is anything else.
#[verifier::external_body]
fn value_as_bool(value: &toml::Value) -> (r: Option<bool>)
    ensures
        r == itself(held(*value)),
{
    value.as_bool()
}

/// The report of `toml::de::Error`, through its `Display`. Nothing is
/// claimed of it.
#[verifier::external_body]
fn error_message(error: &toml::de::Error) -> String {
    error.to_string()
}

fn read_switch(package: &toml::Value, key: &str) -> (r: bool)
    ensures
        r == switch(held(*package), key@),
{
    match value_get(package, key) {
        Some(entry) => {
            let found = value_as_bool(entry);
            proof {
                let path: Seq<Seq<char>> = Seq::empty();
                assert(seq![key@] + path =~= seq![key@]);
            }
            match found {
                Some(b) => b,
                None => true,
            }
        },
        None => true,
    }
}

/// Reads what a parsed document adds to the manifest, and joins the
/// comments to it.
pub fn extra_from(doc: &toml::Value, comments: CommentMap) -> (r: Option<ManifestExtra>)
    ensures
        match r {
            Some(extra) => extra_of(held(*doc), comments@) == Some(extra@),
            None => extra_of(held(*doc), comments@) is None,
        },
{
    match value_get(doc, "package") {
        Some(package) => Some(
            ManifestExtra {
                autobenches: read_switch(package, "autobenches"),
                autobins: read_switch(package, "autobins"),
                autoexamples: read_switch(package, "autoexamples"),
                autotests: read_switch(package, "autotests"),
                comments,
            },
        ),
        None => None,
    }
}

/// Reads a manifest's source text: its comments, and the automatic
/// discovery that its `package` table switches off.
pub fn parse_manifest(text: &str) -> (r: Result<ManifestExtra, ParseError>)
    ensures
        match r {
            Ok(extra) => document(text@) matches Some(doc) && extra_of(doc, scan(text@)) == Some(
                extra@,
            ) && comment_blocks(extra@.comments),
            Err(ParseError::Syntax { .. }) => document(text@) is None,
            Err(ParseError::NoPackage) => document(text@) matches Some(doc) && extra_of(
                doc,
                scan(text@),
            ) is None,
        },
{
    let comments = scan_comments(text);
    match parse_document(text) {
        Ok(doc) => match extra_from(&doc, comments) {
            Some(extra) => Ok(extra),
            None => Err(ParseError::NoPackage),
        },
        Err(error) => Err(ParseError::Syntax { message: error_message(&error) }),
    }
}

} // verus!
