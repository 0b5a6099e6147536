//! The configuration: the name of a properties file and what was read from it.

use crate::configuration::exceptions::{
    ConfigPropertiesError, InvalidConfigPropertyKeyError, MissingConfigPropertyError,
    PropertiesFormatError,
};
use vstd::hash_map::StringHashMap;
use vstd::prelude::*;

verus! {

/// `java_properties::PropertiesError`, what the properties reader fails with.
#[verifier::external_type_specification]
#[verifier::external_body]
pub struct ExPropertiesError(java_properties::PropertiesError);

/// `PropertiesError::line_number`: the line that the error belongs to, if the
/// reader recorded one. Nothing is claimed of the number.
pub assume_specification[ java_properties::PropertiesError::line_number ](
    error: &java_properties::PropertiesError,
) -> (line: Option<usize>)
;

/// The keys and values that the bytes of a properties document hold, in the
/// order of the document, or `None` where the document is malformed. This is
/// what `java_properties::PropertiesIter` reads from the bytes.
pub uninterp spec fn properties_document(contents: Seq<u8>) -> Option<
    Seq<(Seq<char>, Seq<char>)>,
>;

/// The characters of each key and value.
pub open spec fn pair_views(pairs: Seq<(String, String)>) -> Seq<(Seq<char>, Seq<char>)> {
    Seq::new(pairs.len(), |i: int| (pairs[i].0@, pairs[i].1@))
}

/// Appends one key and value to the list that is being read.
fn record_property(pairs: &mut Vec<(String, String)>, key: String, value: String)
    ensures
        final(pairs)@ == old(pairs)@.push((key, value)),
{
    pairs.push((key, value));
}

/// `java_properties::PropertiesIter::new` on the bytes, then `read_into`.
/// The reader decodes the bytes as Windows-1252, joins continued lines, skips
/// comments and blank lines, splits each remaining line into key and value
/// and resolves the escapes; it hands over the pairs in the order of the
/// document and fails on a malformed `\uxxxx` escape. Over a slice no read
/// can fail, so the outcome depends on the bytes alone: it is
/// [`properties_document`].
#[verifier::external_body]
fn read_properties(contents: &[u8]) -> (outcome: Result<
    Vec<(String, String)>,
    java_properties::PropertiesError,
>)
    ensures
        match outcome {
            Ok(pairs) => properties_document(contents@) == Some(pair_views(pairs@)),
            Err(_) => properties_document(contents@) is None,
        },
{
    let mut pairs: Vec<(String, String)> = Vec::new();
    let outcome = java_properties::PropertiesIter::new(contents).read_into(
        |key, value| record_property(&mut pairs, key, value),
    );
    match outcome {
        Ok(()) => Ok(pairs),
        Err(error) => Err(error),
    }
}

/// The lookup that a list of keys and values fills: each key with the value
/// that stands last for it.
pub open spec fn properties_map(pairs: Seq<(Seq<char>, Seq<char>)>) -> Map<Seq<char>, Seq<char>>
    decreases pairs.len(),
{
    if pairs.len() == 0 {
        Map::empty()
    } else {
        properties_map(pairs.drop_last()).insert(pairs.last().0, pairs.last().1)
    }
}

/// The lookup holds a key exactly when the list holds it.
pub proof fn lemma_properties_map_keys(pairs: Seq<(Seq<char>, Seq<char>)>, key: Seq<char>)
    ensures
        properties_map(pairs).contains_key(key) <==> exists|i: int|
            0 <= i < pairs.len() && (#[trigger] pairs[i]).0 == key,
    decreases pairs.len(),
{
    if pairs.len() > 0 {
        let front = pairs.drop_last();
        lemma_properties_map_keys(front, key);
        if properties_map(pairs).contains_key(key) {
            if pairs.last().0 == key {
                assert(pairs[pairs.len() - 1].0 == key);
            } else {
                let i = choose|i: int| 0 <= i < front.len() && (#[trigger] front[i]).0 == key;
                assert(pairs[i].0 == key);
            }
        }
        if exists|i: int| 0 <= i < pairs.len() && (#[trigger] pairs[i]).0 == key {
            let i = choose|i: int| 0 <= i < pairs.len() && (#[trigger] pairs[i]).0 == key;
            if i < pairs.len() - 1 {
                assert(front[i].0 == key);
            }
        }
    }
}

/// The value held for a key is the one that stands with its last occurrence
/// in the list.
pub proof fn lemma_properties_map_last_wins(pairs: Seq<(Seq<char>, Seq<char>)>, last: int)
    requires
        0 <= last < pairs.len(),
        forall|j: int| last < j < pairs.len() ==> (#[trigger] pairs[j]).0 != pairs[last].0,
    ensures
        properties_map(pairs).contains_key(pairs[last].0),
        properties_map(pairs)[pairs[last].0] == pairs[last].1,
    decreases pairs.len(),
{
    if last < pairs.len() - 1 {
        let front = pairs.drop_last();
        assert(pairs[pairs.len() - 1].0 != pairs[last].0);
        assert(front[last] == pairs[last]);
        assert forall|j: int| last < j < front.len() implies (#[trigger] front[j]).0
            != front[last].0 by {
            assert(front[j] == pairs[j]);
        }
        lemma_properties_map_last_wins(front, last);
    }
}

/// The proxy's settings.
pub struct Config {
    pub filename: String,
    pub properties: StringHashMap<String>,
}

/// A configuration as plain values.
pub struct ConfigView {
    pub filename: Seq<char>,
    pub properties: Map<Seq<char>, Seq<char>>,
}

impl View for Config {
    type V = ConfigView;

    open spec fn view(&self) -> ConfigView {
        ConfigView {
            filename: self.filename@,
            properties: self.properties@.map_values(|value: String| value@),
        }
    }
}

impl Config {
    /// A configuration for the named file, with nothing read yet.
    pub fn new(filename: String) -> (config: Config)
        ensures
            config@ == (ConfigView { filename: filename@, properties: Map::empty() }),
    {
        let config = Config { filename, properties: StringHashMap::new() };
        assert(config@.properties =~= Map::empty());
        config
    }

    /// Replaces what is held by the given keys and values; of a key that
    /// comes more than once the last value stays.
    pub fn load(&mut self, pairs: Vec<(String, String)>)
        ensures
            final(self)@ == (ConfigView {
                properties: properties_map(pair_views(pairs@)),
                ..old(self)@
            }),
    {
        self.properties = StringHashMap::new();
        let ghost all = pair_views(pairs@);
        assert(all.take(0) =~= Seq::empty());
        assert(self@.properties =~= properties_map(all.take(0)));
        for pair in it: pairs.into_iter()
            invariant
                it.seq() == pairs@,
                all == pair_views(pairs@),
                self.filename == old(self).filename,
                self@.properties == properties_map(all.take(it.index())),
        {
            let ghost index = it.index();
            let ghost before = self@.properties;
            let ghost key = pair.0@;
            let ghost value = pair.1@;
            assert(all.take(index + 1).drop_last() =~= all.take(index));
            assert(all.take(index + 1).last() == (key, value));
            self.properties.insert(pair.0, pair.1);
            assert(self@.properties =~= before.insert(key, value));
        }
        assert(all.take(all.len() as int) =~= all);
    }

    /// Reads the content of the properties file. On a well-formed document
    /// the configuration then holds exactly its keys and values; on a
    /// malformed one it holds nothing and the error names the file.
    pub fn read(&mut self, contents: &[u8]) -> (outcome: Result<(), PropertiesFormatError>)
        ensures
            match properties_document(contents@) {
                Some(pairs) => outcome is Ok && final(self)@ == (ConfigView {
                    properties: properties_map(pairs),
                    ..old(self)@
                }),
                None => outcome is Err && outcome->Err_0.filename@ == old(self)@.filename
                    && final(self)@ == (ConfigView { properties: Map::empty(), ..old(self)@ }),
            },
    {
        match read_properties(contents) {
            Ok(pairs) => {
                self.load(pairs);
                Ok(())
            },
            Err(error) => {
                self.properties = StringHashMap::new();
                assert(self@.properties =~= Map::empty());
                Err(
                    PropertiesFormatError {
                        filename: self.filename.clone(),
                        line_number: error.line_number(),
                    },
                )
            },
        }
    }

    /// The value held for `key`. The empty key is refused; a key that is not
    /// held is reported as missing. The configuration is left as it was.
    pub fn get(&mut self, key: String) -> (value: Result<String, ConfigPropertiesError>)
        ensures
            *final(self) == *old(self),
            match value {
                Ok(text) => key@.len() > 0 && old(self)@.properties.contains_key(key@) && text@
                    == old(self)@.properties[key@],
                Err(ConfigPropertiesError::InvalidConfigPropertyKeyError(error)) => key@.len() == 0
                    && error.key == key,
                Err(ConfigPropertiesError::MissingConfigPropertyError(error)) => key@.len() > 0
                    && !old(self)@.properties.contains_key(key@) && error.property == key,
            },
    {
        if key.as_str().is_empty() {
            return Err(
                ConfigPropertiesError::InvalidConfigPropertyKeyError(
                    InvalidConfigPropertyKeyError { key },
                ),
            );
        }
        match self.properties.get(key.as_str()) {
            None => Err(
                ConfigPropertiesError::MissingConfigPropertyError(
                    MissingConfigPropertyError { property: key },
                ),
            ),
            Some(value) => Ok(value.clone()),
        }
    }
}

} // verus!
