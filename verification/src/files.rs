use crate::codec::{decode, decoded, to_vec, Error};
use crate::compression::Compression;
use crate::key::{as_key, normalized};
use std::sync::atomic::AtomicBool;
use std::sync::atomic::Ordering;
use vstd::prelude::*;

verus! {

/// The immutable map of `phf`, which holds the table of an accessor. What the
/// contracts below say of it holds of a map as `phf` lays it out, in a
/// compiled table declaration; the crate documents no other way to make one.
#[verifier::external_type_specification]
#[verifier::external_body]
#[verifier::reject_recursive_types(K)]
#[verifier::reject_recursive_types(V)]
pub struct ExStaticMap<K: 'static, V: 'static>(phf::Map<K, V>);

/// What a map holds: each key with the kind and the stored bytes of its
/// entry.
pub uninterp spec fn map_entries(map: phf::Map<&'static str, (Compression, &'static [u8])>) -> Map<
    Seq<char>,
    (Compression, Seq<u8>),
>;

/// `phf::Map::contains_key`: whether the map holds the key, compared as a
/// string.
#[verifier::external_body]
fn map_contains_key(map: &phf::Map<&'static str, (Compression, &'static [u8])>, key: &str) -> (held:
    bool)
    ensures
        held == map_entries(*map).contains_key(key@),
{
    map.contains_key(key)
}

/// `phf::Map::get`, copied out: the value that the key maps to, where the
/// map holds the key, and `None` where it does not.
#[verifier::external_body]
fn map_get(map: &phf::Map<&'static str, (Compression, &'static [u8])>, key: &str) -> (found: Option<
    (Compression, &'static [u8]),
>)
    ensures
        match found {
            Some(entry) => map_entries(*map).contains_key(key@) && map_entries(*map)[key@] == (
                entry.0,
                entry.1@,
            ),
            None => !map_entries(*map).contains_key(key@),
        },
{
    map.get(key).copied()
}

/// `phf::Map::keys`, collected: every key of the map once, and nothing else.
/// The order is the map's own, of which the contract says nothing.
#[verifier::external_body]
fn map_keys(map: &phf::Map<&'static str, (Compression, &'static [u8])>) -> (keys: Vec<
    &'static str,
>)
    ensures
        names(keys@).no_duplicates(),
        names(keys@).to_set() == map_entries(*map).dom(),
{
    map.keys().copied().collect()
}

/// The keys as values.
pub open spec fn names(keys: Seq<&'static str>) -> Seq<Seq<char>> {
    keys.map_values(|k: &'static str| k@)
}

/// Where the content of a path is found.
pub enum Lookup {
    /// On the filesystem, at the path that was asked for.
    OnDisk,
    /// In the table, stored under a kind.
    Stored(Compression, Seq<u8>),
    /// Nowhere: the table has no such key.
    Missing,
}

/// Resolves a path against a table. With the override on, every path is
/// answered from the filesystem and the table is not consulted. Otherwise
/// the path's key is looked up, and a passthrough entry is answered from the
/// filesystem.
pub open spec fn lookup(
    table: Map<Seq<char>, (Compression, Seq<u8>)>,
    passthrough: bool,
    path: Seq<char>,
) -> Lookup {
    if passthrough {
        Lookup::OnDisk
    } else if !table.contains_key(normalized(path)) {
        Lookup::Missing
    } else if table[normalized(path)].0 == Compression::Passthrough {
        Lookup::OnDisk
    } else {
        Lookup::Stored(table[normalized(path)].0, table[normalized(path)].1)
    }
}

/// The content of a path, as far as the table gives it.
#[derive(Debug, PartialEq, Eq)]
pub enum Content {
    /// The content itself, decoded.
    Embedded(Vec<u8>),
    /// The content is that of the file at the path that was asked for.
    OnDisk,
}

/// Whether `out` is the undecoded answer to a request for `path`: the stored
/// kind and payload; for a path answered from the filesystem the passthrough
/// kind without bytes; `NotFound` for a missing key.
pub open spec fn is_raw_answer(
    table: Map<Seq<char>, (Compression, Seq<u8>)>,
    passthrough: bool,
    path: Seq<char>,
    out: Result<(Compression, Vec<u8>), Error>,
) -> bool {
    match lookup(table, passthrough, path) {
        Lookup::OnDisk => out is Ok && out->Ok_0.0 == Compression::Passthrough
            && out->Ok_0.1@.len() == 0,
        Lookup::Stored(kind, payload) => out is Ok && out->Ok_0.0 == kind && out->Ok_0.1@
            == payload,
        Lookup::Missing => out is Err && out->Err_0 is NotFound,
    }
}

/// Whether `out` is the answer to a request for the content of `path`: the
/// decoded content of a stored entry, `Decode` where its payload is
/// malformed, `OnDisk` for a path answered from the filesystem, `NotFound`
/// for a missing key.
pub open spec fn is_answer(
    table: Map<Seq<char>, (Compression, Seq<u8>)>,
    passthrough: bool,
    path: Seq<char>,
    out: Result<Content, Error>,
) -> bool {
    match lookup(table, passthrough, path) {
        Lookup::OnDisk => out is Ok && out->Ok_0 is OnDisk,
        Lookup::Stored(kind, payload) => match decoded(kind, payload) {
            Some(data) => out is Ok && out->Ok_0 is Embedded && out->Ok_0->Embedded_0@ == data,
            None => out is Err && out->Err_0 is Decode,
        },
        Lookup::Missing => out is Err && out->Err_0 is NotFound,
    }
}

/// Whether `out` opens the content of `path` for reading: a reader at the
/// start of a stored entry, `OnDisk` for a path answered from the
/// filesystem, `NotFound` for a missing key.
pub open spec fn is_opened(
    table: Map<Seq<char>, (Compression, Seq<u8>)>,
    passthrough: bool,
    path: Seq<char>,
    out: Result<Stream, Error>,
) -> bool {
    match lookup(table, passthrough, path) {
        Lookup::OnDisk => out is Ok && out->Ok_0 is OnDisk,
        Lookup::Stored(kind, payload) => out is Ok && out->Ok_0 is Embedded && {
            let reader = out->Ok_0->Embedded_0;
            &&& reader.wf()
            &&& reader.kind() == kind
            &&& reader.payload() == payload
            &&& reader.position() == 0
        },
        Lookup::Missing => out is Err && out->Err_0 is NotFound,
    }
}

/// Where an entry was found, with the stored bytes in place.
enum Located {
    OnDisk,
    Stored(Compression, &'static [u8]),
    Missing,
}

/// Run-time access to the files of one table.
pub struct Files {
    /// The table. Written by a table declaration only.
    pub files: phf::Map<&'static str, (Compression, &'static [u8])>,
    /// The override: while it is on, every request is answered from the
    /// filesystem.
    pub passthrough: AtomicBool,
}

impl Files {
    /// The table as a mapping from each key to its kind and stored bytes.
    pub open spec fn table(&self) -> Map<Seq<char>, (Compression, Seq<u8>)> {
        map_entries(self.files)
    }

    /// Switches the override on or off.
    pub fn set_passthrough(&self, enabled: bool) {
        self.passthrough.store(enabled, Ordering::Relaxed);
    }

    /// Reads the override. Any thread may switch it between two reads, so
    /// nothing is promised of the value: callers answer for either state.
    fn override_on(&self) -> bool {
        self.passthrough.load(Ordering::Relaxed)
    }

    /// Whether the table holds `path` as a key. The override plays no part.
    pub fn is_available(&self, path: &str) -> (held: bool)
        ensures
            held == self.table().contains_key(path@),
    {
        map_contains_key(&self.files, path)
    }

    /// The keys of the table: each once, in the table's own order.
    pub fn file_names(&self) -> (list: FileNames)
        ensures
            list.wf(),
            list.remaining().no_duplicates(),
            list.remaining().to_set() == self.table().dom(),
    {
        let names = map_keys(&self.files);
        proof {
            assert(names@.skip(0) == names@);
        }
        FileNames { names, next: 0 }
    }

    /// Resolves `path` for a given state of the override.
    fn locate(&self, passthrough: bool, path: &str) -> (found: Located)
        ensures
            match lookup(self.table(), passthrough, path@) {
                Lookup::OnDisk => found is OnDisk,
                Lookup::Stored(kind, payload) => found is Stored && found->Stored_0 == kind
                    && found->Stored_1@ == payload,
                Lookup::Missing => found is Missing,
            },
    {
        if passthrough {
            return Located::OnDisk;
        }
        let key = as_key(path);
        match map_get(&self.files, key.as_str()) {
            None => Located::Missing,
            Some(entry) => match entry.0 {
                Compression::Passthrough => Located::OnDisk,
                kind => Located::Stored(kind, entry.1),
            },
        }
    }

    /// The undecoded answer to a request for `path` for a given state of the
    /// override.
    pub fn get_raw_with(&self, passthrough: bool, path: &str) -> (out: Result<
        (Compression, Vec<u8>),
        Error,
    >)
        ensures
            is_raw_answer(self.table(), passthrough, path@, out),
    {
        match self.locate(passthrough, path) {
            Located::OnDisk => Ok((Compression::Passthrough, Vec::new())),
            Located::Stored(kind, payload) => Ok((kind, to_vec(payload))),
            Located::Missing => Err(Error::NotFound),
        }
    }

    /// The answer to a request for the content of `path` for a given state of
    /// the override.
    pub fn get_with(&self, passthrough: bool, path: &str) -> (out: Result<Content, Error>)
        ensures
            is_answer(self.table(), passthrough, path@, out),
    {
        match self.locate(passthrough, path) {
            Located::OnDisk => Ok(Content::OnDisk),
            Located::Stored(kind, payload) => match decode(kind, payload) {
                Ok(data) => Ok(Content::Embedded(data)),
                Err(e) => Err(e),
            },
            Located::Missing => Err(Error::NotFound),
        }
    }

    /// Opens the content of `path` for reading for a given state of the
    /// override.
    pub fn read_with(&self, passthrough: bool, path: &str) -> (out: Result<Stream, Error>)
        ensures
            is_opened(self.table(), passthrough, path@, out),
    {
        match self.locate(passthrough, path) {
            Located::OnDisk => Ok(Stream::OnDisk),
            Located::Stored(kind, payload) => Ok(
                Stream::Embedded(Reader { kind, payload, buffer: None, position: 0 }),
            ),
            Located::Missing => Err(Error::NotFound),
        }
    }

    /// Opens the content of `path` for reading, for the state in which the
    /// override is found.
    pub fn read(&self, path: &str) -> (out: Result<Stream, Error>)
        ensures
            is_opened(self.table(), true, path@, out) || is_opened(
                self.table(),
                false,
                path@,
                out,
            ),
    {
        let passthrough = self.override_on();
        self.read_with(passthrough, path)
    }

    /// The answer that stands for a file read from the filesystem: its bytes
    /// as they are, reported as plain.
    pub fn raw_from_disk(data: Vec<u8>) -> (out: (Compression, Vec<u8>))
        ensures
            out.0 == Compression::Plain,
            out.1@ == data@,
            decoded(out.0, out.1@) == Some(data@),
    {
        (Compression::Plain, data)
    }

    /// The undecoded answer to a request for `path`, for the state in which
    /// the override is found.
    pub fn get_raw(&self, path: &str) -> (out: Result<(Compression, Vec<u8>), Error>)
        ensures
            is_raw_answer(self.table(), true, path@, out) || is_raw_answer(
                self.table(),
                false,
                path@,
                out,
            ),
    {
        let passthrough = self.override_on();
        self.get_raw_with(passthrough, path)
    }

    /// The answer to a request for the content of `path`, for the state in
    /// which the override is found.
    pub fn get(&self, path: &str) -> (out: Result<Content, Error>)
        ensures
            is_answer(self.table(), true, path@, out) || is_answer(
                self.table(),
                false,
                path@,
                out,
            ),
    {
        let passthrough = self.override_on();
        self.get_with(passthrough, path)
    }
}

/// The content of a path, opened for reading.
pub enum Stream {
    /// A reader over the stored entry.
    Embedded(Reader),
    /// The content is that of the file at the path that was asked for.
    OnDisk,
}

/// Reads the content of a stored entry piece by piece. A compressed entry is
/// decoded when the first piece is asked for, not before.
pub struct Reader {
    kind: Compression,
    payload: &'static [u8],
    buffer: Option<Vec<u8>>,
    position: usize,
}

/// The smaller of two numbers.
pub open spec fn least(a: int, b: int) -> int {
    if a <= b {
        a
    } else {
        b
    }
}

impl Reader {
    /// The kind under which the entry is stored.
    pub closed spec fn kind(&self) -> Compression {
        self.kind
    }

    /// The stored bytes of the entry.
    pub closed spec fn payload(&self) -> Seq<u8> {
        self.payload@
    }

    /// How many bytes of the content were handed out.
    pub closed spec fn position(&self) -> nat {
        self.position as nat
    }

    /// The content that the reader hands out, or `None` where the stored
    /// bytes are malformed.
    pub open spec fn content(&self) -> Option<Seq<u8>> {
        decoded(self.kind(), self.payload())
    }

    /// The kind is a stored one, what was decoded is the content, and the
    /// position is within it.
    pub closed spec fn wf(&self) -> bool {
        &&& self.kind.is_stored()
        &&& match self.buffer {
            Some(data) => decoded(self.kind, self.payload@) == Some(data@) && self.position
                <= data.len(),
            None => self.position == 0,
        }
    }

    /// Hands out the next piece of the content, of at most `limit` bytes: as
    /// many as are left, up to the limit. Fails, and stays where it is,
    /// where the stored bytes are malformed.
    pub fn read(&mut self, limit: usize) -> (out: Result<Vec<u8>, Error>)
        requires
            old(self).wf(),
        ensures
            final(self).wf(),
            final(self).kind() == old(self).kind(),
            final(self).payload() == old(self).payload(),
            match old(self).content() {
                Some(data) => old(self).position() <= data.len() && out is Ok && out->Ok_0@
                    == data.subrange(
                    old(self).position() as int,
                    least(old(self).position() + limit, data.len() as int),
                ) && final(self).position() == old(self).position() + out->Ok_0@.len(),
                None => out is Err && out->Err_0 is Decode && final(self).position() == old(
                    self,
                ).position(),
            },
    {
        if self.buffer.is_none() {
            match decode(self.kind, self.payload) {
                Ok(data) => {
                    self.buffer = Some(data);
                },
                Err(e) => {
                    return Err(e);
                },
            }
        }
        let mut piece: Vec<u8> = Vec::new();
        match &self.buffer {
            Some(data) => {
                let start = self.position;
                let mut at = self.position;
                while at < data.len() && piece.len() < limit
                    invariant
                        start <= at <= data.len(),
                        piece.len() == at - start,
                        piece.len() <= limit,
                        piece@ == data@.subrange(start as int, at as int),
                    decreases data.len() - at,
                {
                    piece.push(data[at]);
                    at = at + 1;
                    proof {
                        assert(piece@ =~= data@.subrange(start as int, at as int));
                    }
                }
                self.position = at;
            },
            None => {},
        }
        Ok(piece)
    }
}

/// The keys of a table, handed out one at a time.
pub struct FileNames {
    names: Vec<&'static str>,
    next: usize,
}

impl FileNames {
    /// The position is within the list.
    pub closed spec fn wf(&self) -> bool {
        self.next <= self.names.len()
    }

    /// The keys that are still to come, in order.
    pub closed spec fn remaining(&self) -> Seq<Seq<char>> {
        names(self.names@.skip(self.next as int))
    }

    /// The next key, or `None` after the last.
    pub fn next(&mut self) -> (name: Option<&'static str>)
        requires
            old(self).wf(),
        ensures
            final(self).wf(),
            match name {
                Some(key) => old(self).remaining().len() > 0 && key@ == old(self).remaining()[0]
                    && final(self).remaining() == old(self).remaining().drop_first(),
                None => old(self).remaining().len() == 0 && final(self).remaining() == old(
                    self,
                ).remaining(),
            },
    {
        if self.next < self.names.len() {
            let key = self.names[self.next];
            proof {
                assert(names(self.names@.skip(self.next as int)).drop_first() =~= names(
                    self.names@.skip(self.next + 1),
                ));
            }
            self.next = self.next + 1;
            Some(key)
        } else {
            None
        }
    }
}

} // verus!
