//! Payload values and their stored form.
//!
//! The backing store holds plain text; a payload type says how its values
//! are written to text and which texts read back as a value.  Encoding is
//! total; decoding may fail, and the containers decide what a failed read
//! degrades to.  The trait is the containers' whole demand on a payload:
//! serializable, deserializable, and owning a default.

use vstd::prelude::*;
use vstd::string::StringExecFns;

verus! {

/// A value that can live in a backing store.
pub trait StorageValue: Sized {
    /// The exact text that persisting this value writes.
    spec fn encoding(&self) -> Seq<char>;

    /// Which stored texts parse as a value of this type.
    spec fn decodable(s: Seq<char>) -> bool;

    /// Whether this value is the substitute used when nothing usable is
    /// stored (the type's default).
    spec fn is_default(&self) -> bool;

    /// Write the value out as text.
    fn encode(&self) -> (s: String)
        ensures
            s@ == self.encoding(),
    ;

    /// Read a value back from stored text; a value that comes back writes
    /// out to exactly the text it was read from.
    fn decode(s: &str) -> (r: Option<Self>)
        ensures
            r matches Some(v) ==> Self::decodable(s@) && v.encoding() == s@,
            r is None ==> !Self::decodable(s@),
    ;

    /// The substitute value.
    fn default_value() -> (v: Self)
        ensures
            v.is_default(),
    ;

    /// What a value writes, it can read back.
    proof fn lemma_encoding_decodable(&self)
        ensures
            Self::decodable(self.encoding()),
    ;
}

/// Text stores as itself: every stored text reads back, and the default
/// is the empty text.
impl StorageValue for String {
    open spec fn encoding(&self) -> Seq<char> {
        self@
    }

    open spec fn decodable(s: Seq<char>) -> bool {
        true
    }

    open spec fn is_default(&self) -> bool {
        self@ == Seq::<char>::empty()
    }

    fn encode(&self) -> (s: String) {
        self.clone()
    }

    fn decode(s: &str) -> (r: Option<Self>) {
        Some(s.to_owned())
    }

    fn default_value() -> (v: Self) {
        String::new()
    }

    proof fn lemma_encoding_decodable(&self) {
    }
}

/// An example payload whose parse can fail: a colour theme stored as one
/// of three words, with any other text failing to read back.
#[derive(Clone, Copy, PartialEq, Eq, Structural, Debug)]
pub enum Theme {
    Light,
    Dark,
    Blue,
}

impl StorageValue for Theme {
    open spec fn encoding(&self) -> Seq<char> {
        match self {
            Theme::Light => "light"@,
            Theme::Dark => "dark"@,
            Theme::Blue => "blue"@,
        }
    }

    open spec fn decodable(s: Seq<char>) -> bool {
        s == "light"@ || s == "dark"@ || s == "blue"@
    }

    open spec fn is_default(&self) -> bool {
        *self == Theme::Light
    }

    fn encode(&self) -> (s: String) {
        match self {
            Theme::Light => String::from_str("light"),
            Theme::Dark => String::from_str("dark"),
            Theme::Blue => String::from_str("blue"),
        }
    }

    fn decode(s: &str) -> (r: Option<Self>) {
        let owned = s.to_owned();
        if owned == String::from_str("light") {
            Some(Theme::Light)
        } else if owned == String::from_str("dark") {
            Some(Theme::Dark)
        } else if owned == String::from_str("blue") {
            Some(Theme::Blue)
        } else {
            None
        }
    }

    fn default_value() -> (v: Self) {
        Theme::Light
    }

    proof fn lemma_encoding_decodable(&self) {
    }
}

} // verus!
