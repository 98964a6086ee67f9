use crate::codec::{decoded, encode, encoded, Error};
use crate::compression::Compression;
use crate::declaration::{
    builder_build, builder_entries, builder_entry, builder_new, declaration, distinct_entry_keys,
};
use crate::key::{as_key, is_key, normalized};
use crate::render::{code_entries, render_entry};
use crate::table::{
    has_key, index_of, lemma_put, lemma_put_well_formed, put, records, table_of, well_formed,
    FileEntry, Record,
};
use vstd::prelude::*;
use vstd::string::StringExecFns;

verus! {

/// Collects the entries of one table and writes out its declaration.
pub struct IncludeDir {
    files: Vec<FileEntry>,
    name: String,
    passthrough: bool,
}

/// Starts an empty table that will be declared under the name `static_name`.
pub fn start(static_name: &str) -> (dir: IncludeDir)
    ensures
        dir.entries() == Seq::<Record>::empty(),
        dir.table() == Map::<Seq<char>, (Compression, Seq<u8>)>::empty(),
        dir.name() == static_name@,
        !dir.is_passthrough(),
        dir.wf(),
{
    let dir = IncludeDir { files: Vec::new(), name: static_name.to_owned(), passthrough: false };
    proof {
        assert(dir.entries() =~= Seq::<Record>::empty());
        assert(dir.table() =~= Map::<Seq<char>, (Compression, Seq<u8>)>::empty());
    }
    dir
}

/// The kind under which a file is recorded: passthrough where the whole
/// table is, and the requested kind otherwise.
pub open spec fn recorded_kind(passthrough: bool, comp: Compression) -> Compression {
    if passthrough {
        Compression::Passthrough
    } else {
        comp
    }
}

/// The record made of a file at `path` with content `data`, where encoding
/// it succeeds.
pub open spec fn record_of(passthrough: bool, path: Seq<char>, comp: Compression, data: Seq<u8>)
    -> Option<Record> {
    let kind = recorded_kind(passthrough, comp);
    match encoded(kind, data) {
        Some(payload) => Some(Record { key: normalized(path), kind, payload }),
        None => None,
    }
}

/// What a walk over a directory tree yields for one visited path.
#[derive(Debug)]
pub enum WalkEntry {
    /// A directory, by its path.
    Directory(String),
    /// Anything that is not a directory, by its path, with its content.
    File(String, Vec<u8>),
    /// A path that the walk could not visit.
    Failed,
}

/// The outcome of recording a walk: the records, and whether every file of
/// the walk was recorded.
pub struct Walked {
    pub records: Seq<Record>,
    pub complete: bool,
}

/// Records the files of a walk in order, each as `record_of` says.
/// Directories and failed visits are passed over. The walk ends at the first
/// file that cannot be encoded.
pub open spec fn walked(
    s: Seq<Record>,
    passthrough: bool,
    items: Seq<WalkEntry>,
    comp: Compression,
) -> Walked
    decreases items.len(),
{
    if items.len() == 0 {
        Walked { records: s, complete: true }
    } else {
        match items.first() {
            WalkEntry::File(path, data) => match record_of(passthrough, path@, comp, data@) {
                Some(r) => walked(put(s, r), passthrough, items.drop_first(), comp),
                None => Walked { records: s, complete: false },
            },
            _ => walked(s, passthrough, items.drop_first(), comp),
        }
    }
}

/// A walk recorded under a kind that needs no encoder is always complete.
pub proof fn lemma_walked_complete(
    s: Seq<Record>,
    passthrough: bool,
    items: Seq<WalkEntry>,
    comp: Compression,
)
    requires
        recorded_kind(passthrough, comp) != Compression::Gzip,
    ensures
        walked(s, passthrough, items, comp).complete,
    decreases items.len(),
{
    if items.len() > 0 {
        match items.first() {
            WalkEntry::File(path, data) => {
                let r = record_of(passthrough, path@, comp, data@)->0;
                lemma_walked_complete(put(s, r), passthrough, items.drop_first(), comp);
            },
            _ => {
                lemma_walked_complete(s, passthrough, items.drop_first(), comp);
            },
        }
    }
}

/// The place of the entry with the key `key`, where there is one.
fn find(files: &Vec<FileEntry>, key: &String) -> (at: Option<usize>)
    ensures
        match at {
            Some(i) => i < files.len() && files[i as int].key@ == key@,
            None => !has_key(records(files@), key@),
        },
{
    let mut i: usize = 0;
    while i < files.len()
        invariant
            i <= files.len(),
            forall|j: int| 0 <= j < i ==> files[j].key@ != key@,
        decreases files.len() - i,
    {
        if files[i].key == *key {
            return Some(i);
        }
        i = i + 1;
    }
    proof {
        assert forall|j: int| 0 <= j < records(files@).len() implies records(files@)[j].key
            != key@ by {}
    }
    None
}

impl IncludeDir {
    /// The records collected so far, in the order in which the declaration
    /// lists them.
    pub closed spec fn entries(&self) -> Seq<Record> {
        records(self.files@)
    }

    /// The mapping collected so far.
    pub open spec fn table(&self) -> Map<Seq<char>, (Compression, Seq<u8>)> {
        table_of(self.entries())
    }

    /// The name under which the table is declared.
    pub closed spec fn name(&self) -> Seq<char> {
        self.name@
    }

    /// Whether every file is recorded as passthrough, whatever kind is asked.
    pub closed spec fn is_passthrough(&self) -> bool {
        self.passthrough
    }

    /// What every table that this module hands out satisfies: its records
    /// are well formed.
    pub open spec fn wf(&self) -> bool {
        well_formed(self.entries())
    }

    /// The entries collected so far, in the order in which the declaration
    /// lists them.
    pub fn files(&self) -> (list: &Vec<FileEntry>)
        ensures
            records(list@) == self.entries(),
    {
        &self.files
    }

    /// From now on, records no content: every file becomes a passthrough
    /// entry.
    pub fn passthrough(&mut self) -> (dir: &mut IncludeDir)
        ensures
            old(self).wf() ==> dir.wf(),
            dir.is_passthrough(),
            dir.entries() == old(self).entries(),
            dir.name() == old(self).name(),
            *final(self) == *final(dir),
    {
        self.passthrough = true;
        self
    }

    /// Whether recording a file under `comp` uses the file's content.
    pub fn reads_source(&self, comp: Compression) -> (reads: bool)
        ensures
            reads == (recorded_kind(self.is_passthrough(), comp) != Compression::Passthrough),
    {
        !self.passthrough && comp != Compression::Passthrough
    }

    /// Writes one record: the last write to a key wins.
    fn store(&mut self, key: String, kind: Compression, payload: Vec<u8>)
        requires
            old(self).wf(),
            is_key(key@),
            kind == Compression::Passthrough ==> payload@.len() == 0,
        ensures
            final(self).wf(),
            final(self).entries() == put(
                old(self).entries(),
                Record { key: key@, kind, payload: payload@ },
            ),
            final(self).name() == old(self).name(),
            final(self).is_passthrough() == old(self).is_passthrough(),
    {
        let ghost before = records(self.files@);
        let ghost r = Record { key: key@, kind, payload: payload@ };
        proof {
            lemma_put_well_formed(before, r);
        }
        match find(&self.files, &key) {
            Some(i) => {
                proof {
                    assert(before[i as int].key == key@);
                    assert(index_of(before, key@) == i);
                }
                self.files.set(i, FileEntry { key, compression: kind, payload });
                proof {
                    assert(records(self.files@) =~= before.update(i as int, r));
                }
            },
            None => {
                self.files.push(FileEntry { key, compression: kind, payload });
                proof {
                    assert(records(self.files@) =~= before.push(r));
                }
            },
        }
    }

    /// Records the file at `path`, whose content is `data`, under the kind
    /// `comp`. The key is the normalized path. A passthrough entry records no
    /// content. On an encoder failure nothing is recorded.
    pub fn add_file(&mut self, path: &str, comp: Compression, data: &[u8]) -> (done: Result<
        (),
        Error,
    >)
        requires
            old(self).wf(),
        ensures
            final(self).wf(),
            final(self).name() == old(self).name(),
            final(self).is_passthrough() == old(self).is_passthrough(),
            match record_of(old(self).is_passthrough(), path@, comp, data@) {
                Some(r) => done is Ok && final(self).entries() == put(old(self).entries(), r)
                    && final(self).table() == old(self).table().insert(
                    r.key,
                    (r.kind, r.payload),
                ),
                None => done is Err && done->Err_0 is Encode && final(self).entries() == old(
                    self,
                ).entries(),
            },
            done is Ok && recorded_kind(old(self).is_passthrough(), comp).is_stored()
                ==> decoded(
                recorded_kind(old(self).is_passthrough(), comp),
                final(self).table()[normalized(path@)].1,
            ) == Some(data@),
    {
        if self.passthrough || comp != Compression::Gzip {
            // Nothing is encoded, so nothing can fail.
            proof {
                lemma_put(
                    self.entries(),
                    record_of(self.is_passthrough(), path@, comp, data@)->0,
                );
            }
            self.file(path, comp, data);
            Ok(())
        } else {
            match encode(Compression::Gzip, data) {
                Ok(payload) => {
                    let key = as_key(path);
                    proof {
                        lemma_put(
                            self.entries(),
                            Record { key: key@, kind: Compression::Gzip, payload: payload@ },
                        );
                    }
                    self.store(key, Compression::Gzip, payload);
                    Ok(())
                },
                Err(e) => Err(e),
            }
        }
    }

    /// Records the file at `path` as `add_file` does, for chaining, where
    /// encoding the content succeeds.
    pub fn file(&mut self, path: &str, comp: Compression, data: &[u8]) -> (dir: &mut IncludeDir)
        requires
            old(self).wf(),
            record_of(old(self).is_passthrough(), path@, comp, data@) is Some,
        ensures
            dir.wf(),
            dir.name() == old(self).name(),
            dir.is_passthrough() == old(self).is_passthrough(),
            dir.entries() == put(
                old(self).entries(),
                record_of(old(self).is_passthrough(), path@, comp, data@)->0,
            ),
            recorded_kind(old(self).is_passthrough(), comp).is_stored() ==> decoded(
                recorded_kind(old(self).is_passthrough(), comp),
                record_of(old(self).is_passthrough(), path@, comp, data@)->0.payload,
            ) == Some(data@),
            *final(self) == *final(dir),
    {
        let kind = if self.passthrough {
            Compression::Passthrough
        } else {
            comp
        };
        match encode(kind, data) {
            Ok(payload) => {
                let key = as_key(path);
                self.store(key, kind, payload);
            },
            Err(_) => {
                proof {
                    assert(false);
                }
            },
        }
        self
    }

    /// Records every file of a walk under the kind `comp`, in the order of
    /// the walk. Directories and failed visits are passed over. On an encoder
    /// failure the files before the failing one stay recorded.
    pub fn add_dir(&mut self, items: &Vec<WalkEntry>, comp: Compression) -> (done: Result<
        (),
        Error,
    >)
        requires
            old(self).wf(),
        ensures
            final(self).wf(),
            final(self).name() == old(self).name(),
            final(self).is_passthrough() == old(self).is_passthrough(),
            final(self).entries() == walked(
                old(self).entries(),
                old(self).is_passthrough(),
                items@,
                comp,
            ).records,
            done is Ok <==> walked(
                old(self).entries(),
                old(self).is_passthrough(),
                items@,
                comp,
            ).complete,
            done is Err ==> done->Err_0 is Encode,
    {
        if self.passthrough || comp != Compression::Gzip {
            // Nothing is encoded, so nothing can fail.
            proof {
                lemma_walked_complete(self.entries(), self.is_passthrough(), items@, comp);
            }
            self.dir(items, comp);
            return Ok(());
        }
        let ghost start = self.entries();
        let ghost passthrough = self.is_passthrough();
        let mut i: usize = 0;
        proof {
            assert(items@.skip(0) == items@);
        }
        while i < items.len()
            invariant
                i <= items.len(),
                self.wf(),
                self.name() == old(self).name(),
                self.is_passthrough() == passthrough,
                passthrough == old(self).is_passthrough(),
                start == old(self).entries(),
                walked(start, passthrough, items@, comp) == walked(
                    self.entries(),
                    passthrough,
                    items@.skip(i as int),
                    comp,
                ),
            decreases items.len() - i,
        {
            proof {
                assert(items@.skip(i as int).first() == items@[i as int]);
                assert(items@.skip(i as int).drop_first() == items@.skip(i + 1));
            }
            match &items[i] {
                WalkEntry::File(path, data) => {
                    match self.add_file(path.as_str(), comp, data.as_slice()) {
                        Ok(()) => {},
                        Err(e) => {
                            return Err(e);
                        },
                    }
                },
                _ => {},
            }
            i = i + 1;
        }
        Ok(())
    }

    /// Records every file of a walk as `add_dir` does, for chaining, where
    /// encoding each content succeeds.
    pub fn dir(&mut self, items: &Vec<WalkEntry>, comp: Compression) -> (dir: &mut IncludeDir)
        requires
            old(self).wf(),
            walked(old(self).entries(), old(self).is_passthrough(), items@, comp).complete,
        ensures
            dir.wf(),
            dir.name() == old(self).name(),
            dir.is_passthrough() == old(self).is_passthrough(),
            dir.entries() == walked(
                old(self).entries(),
                old(self).is_passthrough(),
                items@,
                comp,
            ).records,
            *final(self) == *final(dir),
    {
        let ghost start = self.entries();
        let ghost passthrough = self.is_passthrough();
        let mut i: usize = 0;
        proof {
            assert(items@.skip(0) == items@);
        }
        while i < items.len()
            invariant
                i <= items.len(),
                self.wf(),
                self.name() == old(self).name(),
                self.is_passthrough() == passthrough,
                passthrough == old(self).is_passthrough(),
                start == old(self).entries(),
                walked(start, passthrough, items@, comp).complete,
                walked(start, passthrough, items@, comp) == walked(
                    self.entries(),
                    passthrough,
                    items@.skip(i as int),
                    comp,
                ),
            decreases items.len() - i,
        {
            proof {
                assert(items@.skip(i as int).first() == items@[i as int]);
                assert(items@.skip(i as int).drop_first() == items@.skip(i + 1));
            }
            match &items[i] {
                WalkEntry::File(path, data) => {
                    self.file(path.as_str(), comp, data.as_slice());
                },
                _ => {},
            }
            i = i + 1;
        }
        self
    }

    /// Writes out the declaration of the table: a static accessor over a
    /// perfect hash map that holds, for each key, the kind and the stored
    /// bytes of its entry.
    pub fn build(&self) -> (text: String)
        requires
            self.wf(),
        ensures
            text@ == declaration(self.name(), self.entries()),
    {
        let ghost s = self.entries();
        let mut builder = builder_new();
        let mut i: usize = 0;
        while i < self.files.len()
            invariant
                i <= self.files.len(),
                s == records(self.files@),
                builder_entries(builder) == code_entries(s).take(i as int),
            decreases self.files.len() - i,
        {
            let entry = &self.files[i];
            let code = render_entry(entry.compression, entry.payload.as_slice());
            builder_entry(&mut builder, entry.key.as_str(), code.as_str());
            proof {
                assert(code_entries(s).take(i + 1) =~= code_entries(s).take(i as int).push(
                    code_entries(s)[i as int],
                ));
            }
            i = i + 1;
        }
        proof {
            assert(code_entries(s).take(s.len() as int) == code_entries(s));
            assert(distinct_entry_keys(code_entries(s))) by {
                assert forall|a: int, b: int|
                    0 <= a < s.len() && 0 <= b < s.len() && #[trigger] code_entries(s)[a].0
                        == #[trigger] code_entries(s)[b].0 implies a == b by {
                    assert(s[a].key == s[b].key);
                }
            }
        }
        let map = builder_build(&builder);
        let mut text = "use includedir::*;\npub static ".to_owned();
        text.append(self.name.as_str());
        text.append(": Files = Files {\n\tfiles:  ");
        text.append(map.as_str());
        text.append(",\n\tpassthrough: ::std::sync::atomic::AtomicBool::new(false),\n};\n");
        text
    }
}

} // verus!
