use vstd::prelude::*;

verus! {

/// How the bytes of an entry are stored.
#[derive(Clone, Copy, Debug, PartialEq, Eq, Structural)]
pub enum Compression {
    /// The bytes are stored verbatim.
    Plain,
    /// The stored bytes are a gzip stream of the content.
    Gzip,
    /// Nothing is stored: the content is read from the filesystem on access.
    Passthrough,
}

impl Compression {
    /// The variant's name as it is written in a table declaration.
    pub open spec fn name(self) -> Seq<char> {
        match self {
            Compression::Plain => "Plain"@,
            Compression::Gzip => "Gzip"@,
            Compression::Passthrough => "Passthrough"@,
        }
    }

    /// Whether entries of this kind carry stored bytes.
    pub open spec fn is_stored(self) -> bool {
        self != Compression::Passthrough
    }

    /// Renders the name of a stored kind.
    pub fn to_string(&self) -> (text: String)
        requires
            self.is_stored(),
        ensures
            text@ == self.name(),
    {
        match self {
            Compression::Plain => "Plain".to_owned(),
            _ => "Gzip".to_owned(),
        }
    }
}

} // verus!
