//! Names for temporary files.

use vstd::prelude::*;

verus! {

/// Whether `c` is a hexadecimal digit as identifiers are written.
pub open spec fn is_hex(c: char) -> bool {
    '0' <= c <= '9' || 'a' <= c <= 'f'
}

/// Whether `id` is the text of a random (version 4) UUID: 32 hexadecimal digits in groups of
/// 8, 4, 4, 4 and 12, with the version and the variant in their places.
pub open spec fn is_random_id(id: Seq<char>) -> bool {
    &&& id.len() == 36
    &&& id[8] == '-' && id[13] == '-' && id[18] == '-' && id[23] == '-'
    &&& forall|i: int|
        0 <= i < 36 && i != 8 && i != 13 && i != 18 && i != 23 ==> is_hex(#[trigger] id[i])
    &&& id[14] == '4'
    &&& id[19] == '8' || id[19] == '9' || id[19] == 'a' || id[19] == 'b'
}

/// The text of a fresh `uuid::Uuid::new_v4`, as its `Display` writes it. Where the system gives
/// no random bytes the call panics.
///
/// Claimed: the form that every such text has. That two calls give different identifiers is
/// left unsaid: it is likely, not certain.
#[verifier::external_body]
fn new_id() -> (id: String)
    ensures
        is_random_id(id@),
{
    uuid::Uuid::new_v4().to_string()
}

/// The file name made of an identifier and an extension.
pub open spec fn file_name(id: Seq<char>, extension: Option<Seq<char>>) -> Seq<char> {
    match extension {
        Some(extension) => id + "."@ + extension,
        None => id,
    }
}

/// A text that may be missing.
pub open spec fn view_of(text: Option<&str>) -> Option<Seq<char>> {
    match text {
        Some(text) => Some(text@),
        None => None,
    }
}

/// The file name made of an identifier and an extension.
pub fn named_file(id: &str, extension: Option<&str>) -> (result: String)
    ensures
        result@ == file_name(id@, view_of(extension)),
{
    let mut name = id.to_owned();
    if let Some(extension) = extension {
        name.append(".");
        name.append(extension);
    }
    name
}

/// A new name for a file, which is not created.
pub fn get_tmp_file(extension: Option<&str>) -> (result: String)
    ensures
        exists|id: Seq<char>|
            #[trigger] is_random_id(id) && result@ == file_name(id, view_of(extension)),
{
    let id = new_id();
    named_file(id.as_str(), extension)
}

/// Different identifiers give different names, whatever the extension.
pub proof fn law_file_names_differ(
    first: Seq<char>,
    second: Seq<char>,
    first_extension: Option<Seq<char>>,
    second_extension: Option<Seq<char>>,
)
    requires
        is_random_id(first),
        is_random_id(second),
        first != second,
    ensures
        file_name(first, first_extension) != file_name(second, second_extension),
{
    let a = file_name(first, first_extension);
    let b = file_name(second, second_extension);
    assert(a.take(36) =~= first);
    assert(b.take(36) =~= second);
}

/// A name begins with its identifier. After it comes nothing, or a dot and the extension.
pub proof fn law_file_name(id: Seq<char>, extension: Seq<char>)
    ensures
        file_name(id, None) == id,
        ({
            let name = file_name(id, Some(extension));
            &&& name.len() == id.len() + 1 + extension.len()
            &&& name.take(id.len() as int) == id
            &&& name[id.len() as int] == '.'
            &&& name.skip(id.len() as int + 1) == extension
        }),
{
    reveal_strlit(".");
    let name = file_name(id, Some(extension));
    assert(name.take(id.len() as int) =~= id);
    assert(name.skip(id.len() as int + 1) =~= extension);
}

/// An extension that is given is taken as it is.
pub proof fn law_extension_taken(text: &str)
    ensures
        view_of(Some(text)) == Some(text@),
        view_of(None) is None,
{
}

} // verus!
