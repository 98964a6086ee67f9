use crate::compression::Compression;
use crate::key::is_key;
use vstd::prelude::*;

verus! {

/// One record of a table as a mathematical value: the logical key, the kind,
/// and the stored payload.
pub struct Record {
    pub key: Seq<char>,
    pub kind: Compression,
    pub payload: Seq<u8>,
}

/// One record of a table: the logical key, the kind, and the stored payload.
#[derive(Debug, PartialEq, Eq)]
pub struct FileEntry {
    pub key: String,
    pub compression: Compression,
    pub payload: Vec<u8>,
}

impl View for FileEntry {
    type V = Record;

    open spec fn view(&self) -> Record {
        Record { key: self.key@, kind: self.compression, payload: self.payload@ }
    }
}

/// The records of a vector of entries, in order.
pub open spec fn records(entries: Seq<FileEntry>) -> Seq<Record> {
    entries.map_values(|e: FileEntry| e@)
}

/// Whether some record of `s` has the key `key`.
pub open spec fn has_key(s: Seq<Record>, key: Seq<char>) -> bool {
    exists|i: int| 0 <= i < s.len() && #[trigger] s[i].key == key
}

/// The place of a record with the key `key`, where there is one.
pub open spec fn index_of(s: Seq<Record>, key: Seq<char>) -> int {
    choose|i: int| 0 <= i < s.len() && #[trigger] s[i].key == key
}

/// No key occurs twice.
pub open spec fn distinct_keys(s: Seq<Record>) -> bool {
    forall|i: int, j: int|
        0 <= i < s.len() && 0 <= j < s.len() && #[trigger] s[i].key == #[trigger] s[j].key ==> i
            == j
}

/// What a well-formed sequence of records holds: keys are canonical and
/// distinct, and a passthrough record stores nothing.
pub open spec fn well_formed(s: Seq<Record>) -> bool {
    &&& distinct_keys(s)
    &&& forall|i: int| 0 <= i < s.len() ==> is_key(#[trigger] s[i].key)
    &&& forall|i: int|
        0 <= i < s.len() && (#[trigger] s[i]).kind == Compression::Passthrough
            ==> s[i].payload.len() == 0
}

/// The mapping that a sequence of records stands for: each key to its kind
/// and payload.
pub open spec fn table_of(s: Seq<Record>) -> Map<Seq<char>, (Compression, Seq<u8>)> {
    Map::new(
        |key: Seq<char>| has_key(s, key),
        |key: Seq<char>| (s[index_of(s, key)].kind, s[index_of(s, key)].payload),
    )
}

/// The records after `r` is written: it takes the place of the record with
/// its key where there is one, and comes last otherwise.
pub open spec fn put(s: Seq<Record>, r: Record) -> Seq<Record> {
    if has_key(s, r.key) {
        s.update(index_of(s, r.key), r)
    } else {
        s.push(r)
    }
}

/// Writing a record keeps keys distinct and, as a mapping, is an insertion:
/// the last write to a key wins.
pub proof fn lemma_put(s: Seq<Record>, r: Record)
    requires
        distinct_keys(s),
    ensures
        distinct_keys(put(s, r)),
        table_of(put(s, r)) == table_of(s).insert(r.key, (r.kind, r.payload)),
{
    let t = put(s, r);
    let at = if has_key(s, r.key) {
        index_of(s, r.key)
    } else {
        s.len() as int
    };
    assert(0 <= at < t.len() && t[at] == r);
    assert forall|i: int| 0 <= i < t.len() && i != at implies 0 <= i < s.len() && t[i] == s[i]
        && s[i].key != r.key by {
        if s[i].key == r.key {
            assert(has_key(s, r.key));
        }
    }
    assert(distinct_keys(t)) by {
        assert forall|i: int, j: int|
            0 <= i < t.len() && 0 <= j < t.len() && #[trigger] t[i].key == #[trigger] t[j].key
            implies i == j by {
            if i != at && j != at {
                assert(s[i].key == s[j].key);
            }
        }
    }
    let want = table_of(s).insert(r.key, (r.kind, r.payload));
    assert forall|key: Seq<char>| table_of(t).dom().contains(key) <==> want.dom().contains(
        key,
    ) by {
        if has_key(t, key) {
            let i = index_of(t, key);
            if i != at {
                assert(s[i].key == key);
            }
        }
        if key == r.key {
            assert(t[at].key == key);
        } else if has_key(s, key) {
            let i = index_of(s, key);
            assert(t[i].key == key);
        }
    }
    assert forall|key: Seq<char>| #[trigger] want.dom().contains(key) implies table_of(t)[key]
        == want[key] by {
        assert(has_key(t, key));
        let i = index_of(t, key);
        if key == r.key {
            assert(t[at].key == t[i].key);
        } else {
            assert(i != at);
            let j = index_of(s, key);
            assert(s[i].key == s[j].key);
        }
    }
    assert(table_of(t) =~= want);
}

/// Writing a well-formed record keeps the records well formed.
pub proof fn lemma_put_well_formed(s: Seq<Record>, r: Record)
    requires
        well_formed(s),
        is_key(r.key),
        r.kind == Compression::Passthrough ==> r.payload.len() == 0,
    ensures
        well_formed(put(s, r)),
{
    lemma_put(s, r);
    let t = put(s, r);
    assert forall|i: int| 0 <= i < t.len() implies is_key(#[trigger] t[i].key) && (t[i].kind
        == Compression::Passthrough ==> t[i].payload.len() == 0) by {
        if t[i] != r {
            assert(t[i] == s[i]);
        }
    }
}

} // verus!
