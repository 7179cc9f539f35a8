//! The bucket store: what is computed around the calls to the object store,
//! namely reading the endpoint setting and turning a listing into object keys.

use vstd::prelude::*;
use std::str::FromStr;
use http::uri::InvalidUri;
use http::Uri;

verus! {

#[verifier::external_type_specification]
#[verifier::external_body]
pub struct ExUri(Uri);

#[verifier::external_type_specification]
#[verifier::external_body]
pub struct ExInvalidUri(InvalidUri);

/// The region used when the environment names none.
pub const DEFAULT_REGION: &'static str = "us-west-2";

/// Why a setting could not be read.
#[derive(Debug, PartialEq, Eq, Structural)]
pub enum SettingError {
    /// The endpoint setting is not a valid URI.
    InvalidUri,
}

/// Whether `http` accepts `text` as a URI.
pub uninterp spec fn uri_accepts(text: Seq<char>) -> bool;

/// A URI together with the text it was parsed from.
pub struct ParsedUri {
    uri: Uri,
    text: String,
}

impl ParsedUri {
    /// The text the URI was parsed from.
    pub closed spec fn source_text(&self) -> Seq<char> {
        self.text@
    }

    /// The text the URI was parsed from.
    pub fn text(&self) -> (t: &str)
        ensures
            t@ == self.source_text(),
    {
        self.text.as_str()
    }

    /// The parsed URI.
    pub fn into_uri(self) -> Uri {
        self.uri
    }
}

/// Parses a URI with `http::Uri::from_str`. Whether it succeeds is named by
/// `uri_accepts`; as the source of `http` shows, the empty text is refused and
/// a single `/` is accepted. The parsed URI is kept with the text it came from,
/// and a `ParsedUri` is only made here, so its URI is always the parse of its
/// text.
#[verifier::external_body]
fn parse_uri(text: &str) -> (uri: Result<ParsedUri, InvalidUri>)
    ensures
        uri.is_ok() == uri_accepts(text@),
        uri matches Ok(p) ==> p.source_text() == text@,
        text@.len() == 0 ==> uri.is_err(),
        text@ == seq!['/'] ==> uri.is_ok(),
{
    match Uri::from_str(text) {
        Ok(uri) => Ok(ParsedUri { uri, text: text.to_string() }),
        Err(err) => Err(err),
    }
}

/// Reads the endpoint setting: no setting means the default endpoint, and a
/// setting must be a valid URI, which is then the URI parsed from it.
pub fn parse_endpoint(setting: Option<String>) -> (endpoint: Result<Option<ParsedUri>, SettingError>)
    ensures
        match setting {
            None => endpoint matches Ok(None),
            Some(text) => {
                &&& (endpoint matches Ok(Some(_))) <==> uri_accepts(text@)
                &&& endpoint matches Ok(Some(p)) ==> p.source_text() == text@
                &&& (endpoint matches Err(SettingError::InvalidUri)) <==> !uri_accepts(text@)
            },
        },
{
    match setting {
        None => Ok(None),
        Some(text) => match parse_uri(text.as_str()) {
            Ok(uri) => Ok(Some(uri)),
            Err(_) => Err(SettingError::InvalidUri),
        },
    }
}

/// The key of a listed object, empty when the listing gives none.
pub open spec fn object_key(key: Option<String>) -> Seq<char> {
    match key {
        Some(k) => k@,
        None => Seq::empty(),
    }
}

/// The keys of the objects of a listing, in order; no listing gives no keys.
pub open spec fn listed_keys(contents: Option<Seq<Option<String>>>) -> Seq<Seq<char>> {
    match contents {
        Some(objects) => objects.map_values(|key: Option<String>| object_key(key)),
        None => Seq::empty(),
    }
}

/// Turns the objects of a listing, each given by its optional key, into their
/// keys.
pub fn object_keys(contents: Option<Vec<Option<String>>>) -> (keys: Vec<String>)
    ensures
        keys@.map_values(|k: String| k@) == listed_keys(
            match contents {
                Some(v) => Some(v@),
                None => None,
            },
        ),
{
    let mut keys: Vec<String> = Vec::new();
    match contents {
        None => {
            assert(keys@.map_values(|k: String| k@) =~= Seq::<Seq<char>>::empty());
        },
        Some(objects) => {
            let mut i: usize = 0;
            while i < objects.len()
                invariant
                    i <= objects@.len(),
                    keys@.map_values(|k: String| k@) =~= objects@.take(i as int).map_values(
                        |key: Option<String>| object_key(key),
                    ),
                decreases objects@.len() - i,
            {
                let key = match &objects[i] {
                    Some(k) => k.clone(),
                    None => String::new(),
                };
                assert(key@ == object_key(objects@[i as int]));
                let ghost prev = keys@;
                keys.push(key);
                assert(keys@.map_values(|k: String| k@) =~= prev.map_values(|k: String| k@).push(key@));
                assert(objects@.take(i + 1) =~= objects@.take(i as int).push(objects@[i as int]));
                assert(objects@.take(i + 1).map_values(|key: Option<String>| object_key(key))
                    =~= objects@.take(i as int).map_values(|key: Option<String>| object_key(key)).push(object_key(objects@[i as int])));
                i = i + 1;
            }
            assert(objects@.take(objects@.len() as int) =~= objects@);
        },
    }
    keys
}

/// A listing gives one key per object, in order: the object's own key, or the
/// empty key for an object without one; no listing gives no keys.
pub proof fn lemma_listed_keys(objects: Seq<Option<String>>)
    ensures
        listed_keys(None).len() == 0,
        listed_keys(Some(objects)).len() == objects.len(),
        forall|i: int| 0 <= i < objects.len() ==> (#[trigger] objects[i] matches Some(k) ==> listed_keys(Some(objects))[i] == k@),
        forall|i: int| 0 <= i < objects.len() ==> (#[trigger] objects[i] is None ==> listed_keys(Some(objects))[i].len() == 0),
{
}

} // verus!
