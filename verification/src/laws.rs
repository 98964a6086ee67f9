use crate::codec::{decoded, encoded, Error};
use crate::compression::Compression;
use crate::files::{is_answer, is_opened, is_raw_answer, lookup, Content, Lookup, Stream};
use crate::generator::record_of;
use crate::key::{is_key, normalized};
use crate::table::{distinct_keys, lemma_put, put, table_of, Record};
use vstd::prelude::*;

verus! {

/// A key is in canonical form, and normalizing it again changes nothing.
pub proof fn law_normalized_is_key(path: Seq<char>)
    ensures
        is_key(normalized(path)),
        normalized(normalized(path)) == normalized(path),
{
    assert(normalized(normalized(path)) =~= normalized(path));
}

/// A path without a backslash is its own key.
pub proof fn law_key_unchanged(path: Seq<char>)
    requires
        is_key(path),
    ensures
        normalized(path) == path,
{
    assert(normalized(path) =~= path);
}

/// Two paths that differ only in which of the two separators they use, place
/// by place, have the same key.
pub proof fn law_separators_agree(a: Seq<char>, b: Seq<char>)
    requires
        a.len() == b.len(),
        forall|i: int|
            0 <= i < a.len() ==> a[i] == b[i] || (a[i] == '\\' && b[i] == '/') || (a[i] == '/'
                && b[i] == '\\'),
    ensures
        normalized(a) == normalized(b),
{
    assert(normalized(a) =~= normalized(b));
}

/// With the override off, a request is resolved by the key of its path
/// alone: two paths with the same key are resolved alike.
pub proof fn law_lookup_by_key(
    table: Map<Seq<char>, (Compression, Seq<u8>)>,
    a: Seq<char>,
    b: Seq<char>,
)
    requires
        normalized(a) == normalized(b),
    ensures
        lookup(table, false, a) == lookup(table, false, b),
{
}

/// After a file was recorded, exactly its key was added to the keys of the
/// table, and every other key keeps its entry.
pub proof fn law_keys_after_add(
    s: Seq<Record>,
    passthrough: bool,
    path: Seq<char>,
    comp: Compression,
    data: Seq<u8>,
)
    requires
        distinct_keys(s),
        record_of(passthrough, path, comp, data) is Some,
    ensures
        ({
            let after = table_of(put(s, record_of(passthrough, path, comp, data)->0));
            &&& after.dom() == table_of(s).dom().insert(normalized(path))
            &&& forall|key: Seq<char>|
                key != normalized(path) && table_of(s).contains_key(key) ==> after[key]
                    == table_of(s)[key]
        }),
{
    lemma_put(s, record_of(passthrough, path, comp, data)->0);
}

/// A file recorded as plain is answered with exactly its content, under any
/// path that has its key.
pub proof fn law_plain_round_trip(
    s: Seq<Record>,
    path: Seq<char>,
    data: Seq<u8>,
    query: Seq<char>,
    out: Result<Content, Error>,
)
    requires
        distinct_keys(s),
        normalized(query) == normalized(path),
        is_answer(
            table_of(put(s, record_of(false, path, Compression::Plain, data)->0)),
            false,
            query,
            out,
        ),
    ensures
        record_of(false, path, Compression::Plain, data) is Some,
        out is Ok,
        out->Ok_0 is Embedded,
        out->Ok_0->Embedded_0@ == data,
{
    lemma_put(s, record_of(false, path, Compression::Plain, data)->0);
}

/// A file recorded under a stored kind, whose payload decodes to its content
/// as the encoder promises, is answered with exactly its content, and its
/// undecoded answer is the payload under that kind.
pub proof fn law_stored_round_trip(
    s: Seq<Record>,
    path: Seq<char>,
    comp: Compression,
    data: Seq<u8>,
    query: Seq<char>,
    out: Result<Content, Error>,
    raw: Result<(Compression, Vec<u8>), Error>,
)
    requires
        distinct_keys(s),
        comp.is_stored(),
        encoded(comp, data) is Some,
        decoded(comp, encoded(comp, data)->0) == Some(data),
        normalized(query) == normalized(path),
        is_answer(table_of(put(s, record_of(false, path, comp, data)->0)), false, query, out),
        is_raw_answer(table_of(put(s, record_of(false, path, comp, data)->0)), false, query, raw),
    ensures
        out is Ok,
        out->Ok_0 is Embedded,
        out->Ok_0->Embedded_0@ == data,
        raw is Ok,
        raw->Ok_0.0 == comp,
        raw->Ok_0.1@ == encoded(comp, data)->0,
        decoded(raw->Ok_0.0, raw->Ok_0.1@) == Some(data),
{
    lemma_put(s, record_of(false, path, comp, data)->0);
}

/// A file recorded as passthrough, by its own kind or because the whole
/// table is, stores nothing and is answered from the filesystem.
pub proof fn law_passthrough_entry(
    s: Seq<Record>,
    passthrough: bool,
    path: Seq<char>,
    comp: Compression,
    data: Seq<u8>,
    out: Result<Content, Error>,
)
    requires
        distinct_keys(s),
        passthrough || comp == Compression::Passthrough,
        is_answer(table_of(put(s, record_of(passthrough, path, comp, data)->0)), false, path, out),
    ensures
        record_of(passthrough, path, comp, data) is Some,
        record_of(passthrough, path, comp, data)->0.payload.len() == 0,
        out is Ok,
        out->Ok_0 is OnDisk,
{
    lemma_put(s, record_of(passthrough, path, comp, data)->0);
}

/// Two answers to the same request, in the same state of the override, are
/// the same: both fail alike, or both are answered from the filesystem, or
/// both hold the same bytes.
pub proof fn law_same_answer(
    table: Map<Seq<char>, (Compression, Seq<u8>)>,
    passthrough: bool,
    path: Seq<char>,
    first: Result<Content, Error>,
    second: Result<Content, Error>,
)
    requires
        is_answer(table, passthrough, path, first),
        is_answer(table, passthrough, path, second),
    ensures
        first is Ok <==> second is Ok,
        first is Ok ==> (first->Ok_0 is OnDisk <==> second->Ok_0 is OnDisk),
        first is Ok && first->Ok_0 is Embedded ==> first->Ok_0->Embedded_0@
            == second->Ok_0->Embedded_0@,
        first is Err ==> (first->Err_0 is NotFound <==> second->Err_0 is NotFound) && (
        first->Err_0 is Decode <==> second->Err_0 is Decode),
{
}

/// Two undecoded answers to the same request, in the same state of the
/// override, are the same.
pub proof fn law_same_raw_answer(
    table: Map<Seq<char>, (Compression, Seq<u8>)>,
    passthrough: bool,
    path: Seq<char>,
    first: Result<(Compression, Vec<u8>), Error>,
    second: Result<(Compression, Vec<u8>), Error>,
)
    requires
        is_raw_answer(table, passthrough, path, first),
        is_raw_answer(table, passthrough, path, second),
    ensures
        first is Ok <==> second is Ok,
        first is Ok ==> first->Ok_0.0 == second->Ok_0.0 && first->Ok_0.1@ == second->Ok_0.1@,
        first is Err ==> first->Err_0 is NotFound && second->Err_0 is NotFound,
{
}

/// Two readers opened by the same request, in the same state of the
/// override, hand out the same content.
pub proof fn law_same_stream(
    table: Map<Seq<char>, (Compression, Seq<u8>)>,
    passthrough: bool,
    path: Seq<char>,
    first: Result<Stream, Error>,
    second: Result<Stream, Error>,
)
    requires
        is_opened(table, passthrough, path, first),
        is_opened(table, passthrough, path, second),
    ensures
        first is Ok <==> second is Ok,
        first is Ok ==> (first->Ok_0 is OnDisk <==> second->Ok_0 is OnDisk),
        first is Ok && first->Ok_0 is Embedded ==> first->Ok_0->Embedded_0.content()
            == second->Ok_0->Embedded_0.content() && first->Ok_0->Embedded_0.position()
            == second->Ok_0->Embedded_0.position(),
{
}

/// While the override is on, every request is answered from the filesystem,
/// whatever the table holds; once it is off again, the answer is what the
/// table gives, as if the override had never been on.
pub proof fn law_override(
    table: Map<Seq<char>, (Compression, Seq<u8>)>,
    path: Seq<char>,
    on: Result<Content, Error>,
    raw_on: Result<(Compression, Vec<u8>), Error>,
)
    requires
        is_answer(table, true, path, on),
        is_raw_answer(table, true, path, raw_on),
    ensures
        lookup(table, true, path) == Lookup::OnDisk,
        on is Ok && on->Ok_0 is OnDisk,
        raw_on is Ok && raw_on->Ok_0.0 == Compression::Passthrough && raw_on->Ok_0.1@.len() == 0,
{
}

/// With the override off, a request for a key that the table does not hold
/// fails as not found; it is never answered with bytes.
pub proof fn law_missing_key(
    table: Map<Seq<char>, (Compression, Seq<u8>)>,
    path: Seq<char>,
    out: Result<Content, Error>,
    raw: Result<(Compression, Vec<u8>), Error>,
)
    requires
        !table.contains_key(normalized(path)),
        is_answer(table, false, path, out),
        is_raw_answer(table, false, path, raw),
    ensures
        out is Err && out->Err_0 is NotFound,
        raw is Err && raw->Err_0 is NotFound,
{
}

/// A request never answers with the stored bytes of a compressed entry in
/// place of its content: what it answers with is what the payload decodes
/// to.
pub proof fn law_never_compressed(
    table: Map<Seq<char>, (Compression, Seq<u8>)>,
    passthrough: bool,
    path: Seq<char>,
    out: Result<Content, Error>,
)
    requires
        is_answer(table, passthrough, path, out),
        out is Ok,
        out->Ok_0 is Embedded,
    ensures
        table.contains_key(normalized(path)),
        decoded(table[normalized(path)].0, table[normalized(path)].1) == Some(
            out->Ok_0->Embedded_0@,
        ),
{
}

} // verus!
