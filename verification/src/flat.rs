use crate::compression::Compression;
use crate::declaration::{
    builder_build, builder_entries, builder_entry, builder_new, distinct_entry_keys, phf_map_text,
};
use crate::generator::{lemma_walked_complete, start, walked, WalkEntry};
use crate::render::{render_slice, slice_code};
use crate::table::{records, Record};
use vstd::prelude::*;
use vstd::string::StringExecFns;

verus! {

/// The keys of the records, each with the expression of its bytes.
pub open spec fn slice_entries(s: Seq<Record>) -> Seq<(Seq<char>, Seq<char>)> {
    s.map_values(|r: Record| (r.key, slice_code(r.payload)))
}

/// The records of the files of a walk, each stored as it is.
pub open spec fn plain_records(items: Seq<WalkEntry>) -> Seq<Record> {
    walked(Seq::empty(), false, items, Compression::Plain).records
}

/// The declaration of a map from the key of each file to its bytes, under
/// the name `FILES`.
pub open spec fn flat_declaration(s: Seq<Record>) -> Seq<char> {
    "static FILES: phf::Map<&'static str, &'static [u8]> = "@ + phf_map_text(slice_entries(s))
        + ";\n"@
}

/// Writes out the declaration of a map from the key of each file of a walk
/// to its bytes as they are, without kinds and without an accessor.
/// Directories and failed visits are passed over, and the last file of a key
/// wins.
pub fn build(items: &Vec<WalkEntry>) -> (text: String)
    ensures
        text@ == flat_declaration(plain_records(items@)),
{
    let mut table = start("FILES");
    proof {
        lemma_walked_complete(Seq::empty(), false, items@, Compression::Plain);
    }
    table.dir(items, Compression::Plain);
    let files = table.files();
    let ghost s = records(files@);
    let mut builder = builder_new();
    let mut i: usize = 0;
    while i < files.len()
        invariant
            i <= files.len(),
            s == records(files@),
            builder_entries(builder) == slice_entries(s).take(i as int),
        decreases files.len() - i,
    {
        let code = render_slice(files[i].payload.as_slice());
        builder_entry(&mut builder, files[i].key.as_str(), code.as_str());
        proof {
            assert(slice_entries(s).take(i + 1) =~= slice_entries(s).take(i as int).push(
                slice_entries(s)[i as int],
            ));
        }
        i = i + 1;
    }
    proof {
        assert(slice_entries(s).take(s.len() as int) == slice_entries(s));
        assert(distinct_entry_keys(slice_entries(s))) by {
            assert forall|a: int, b: int|
                0 <= a < s.len() && 0 <= b < s.len() && #[trigger] slice_entries(s)[a].0
                    == #[trigger] slice_entries(s)[b].0 implies a == b by {
                assert(s[a].key == s[b].key);
            }
        }
    }
    let map = builder_build(&builder);
    let mut text = "static FILES: phf::Map<&'static str, &'static [u8]> = ".to_owned();
    text.append(map.as_str());
    text.append(";\n");
    text
}

} // verus!
