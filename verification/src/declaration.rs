use crate::render::code_entries;
use crate::table::Record;
use vstd::prelude::*;

verus! {

/// The builder of `phf_codegen` for the source text of a `phf::Map`.
#[verifier::external_type_specification]
#[verifier::external_body]
#[verifier::reject_recursive_types(K)]
pub struct ExMapBuilder<K>(phf_codegen::Map<K>);

/// The entries that a builder holds: each key with the expression of its
/// value, in the order in which they were added.
pub uninterp spec fn builder_entries(builder: phf_codegen::Map<&str>) -> Seq<
    (Seq<char>, Seq<char>),
>;

/// The source text of the `phf::Map` that `phf_codegen` prints for the given
/// keys and value expressions.
pub uninterp spec fn phf_map_text(entries: Seq<(Seq<char>, Seq<char>)>) -> Seq<char>;

/// No key occurs twice among the entries.
pub open spec fn distinct_entry_keys(entries: Seq<(Seq<char>, Seq<char>)>) -> bool {
    forall|i: int, j: int|
        0 <= i < entries.len() && 0 <= j < entries.len() && #[trigger] entries[i].0
            == #[trigger] entries[j].0 ==> i == j
}

/// `phf_codegen::Map::new`: a builder without entries.
#[verifier::external_body]
pub(crate) fn builder_new<'a>() -> (builder: phf_codegen::Map<&'a str>)
    ensures
        builder_entries(builder) == Seq::<(Seq<char>, Seq<char>)>::empty(),
{
    phf_codegen::Map::new()
}

/// `phf_codegen::Map::entry`: adds one key and the expression of its value
/// after those that the builder holds.
#[verifier::external_body]
pub(crate) fn builder_entry<'a>(builder: &mut phf_codegen::Map<&'a str>, key: &'a str, value: &str)
    ensures
        builder_entries(*final(builder)) == builder_entries(*old(builder)).push((key@, value@)),
{
    builder.entry(key, value);
}

/// `phf_codegen::Map::build`, printed: the source text of the map. The
/// outside function panics on a key that occurs twice, which `requires`
/// leaves out; the contract names the text.
#[verifier::external_body]
pub(crate) fn builder_build(builder: &phf_codegen::Map<&str>) -> (text: String)
    requires
        distinct_entry_keys(builder_entries(*builder)),
    ensures
        text@ == phf_map_text(builder_entries(*builder)),
{
    builder.build().to_string()
}

/// What a declaration holds before the map.
pub open spec fn header(name: Seq<char>) -> Seq<char> {
    "use includedir::*;\npub static "@ + name + ": Files = Files {\n\tfiles:  "@
}

/// What a declaration holds after the map.
pub open spec fn footer() -> Seq<char> {
    ",\n\tpassthrough: ::std::sync::atomic::AtomicBool::new(false),\n};\n"@
}

/// The declaration of the table `name` with the records `s`: a static
/// accessor over the map from each key to its kind and stored bytes, with the
/// override switched off.
pub open spec fn declaration(name: Seq<char>, s: Seq<Record>) -> Seq<char> {
    header(name) + phf_map_text(code_entries(s)) + footer()
}

} // verus!
