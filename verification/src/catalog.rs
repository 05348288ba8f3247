//! What the storage engine knows by name: its B-trees, its key types, and
//! the layout of the fields of each key type.
//!
//! The catalog is a table that the caller fills and the library only reads.
//! An identifier is the index of its name: the engine numbers its B-trees
//! and its key types in the order of its tables of names.

use vstd::prelude::*;

verus! {

/// Where a field lies in a key: its offset and its size in bytes.
#[derive(Clone, Copy, Debug, PartialEq, Eq, Structural)]
pub struct FieldPlace {
    pub offset: u32,
    pub size: u32,
}

/// A field of a key type.
#[derive(Debug, PartialEq, Eq)]
pub struct FieldLayout {
    /// The path of the field; a field inside a field is written with dots.
    pub path: String,
    pub place: FieldPlace,
}

/// A key type and its fields.
#[derive(Debug, PartialEq, Eq)]
pub struct KeyTypeLayout {
    /// The name of the key type as commands write it.
    pub name: String,
    pub fields: Vec<FieldLayout>,
}

/// The names and layouts of one storage engine.
#[derive(Debug, PartialEq, Eq)]
pub struct Catalog {
    /// The names of the B-trees; the identifier of a B-tree is its index.
    pub btrees: Vec<String>,
    /// The names of the key types; the tag of a key type is its index.
    pub key_types: Vec<String>,
    /// The layouts of the key types that can be updated.
    pub layouts: Vec<KeyTypeLayout>,
}

/// The first index from `from` on at which `names` holds `name`.
pub open spec fn first_named(names: Seq<Seq<char>>, name: Seq<char>, from: int) -> Option<int>
    decreases names.len() - from,
{
    if from < 0 || from >= names.len() {
        None
    } else if names[from] == name {
        Some(from)
    } else {
        first_named(names, name, from + 1)
    }
}

/// `first_named` finds a name where it stands and none before it, and
/// finds nothing only where the name does not stand at all.
pub proof fn lemma_first_named(names: Seq<Seq<char>>, name: Seq<char>, from: int)
    requires
        0 <= from,
    ensures
        match first_named(names, name, from) {
            Some(i) => from <= i < names.len() && names[i] == name && forall|j: int|
                from <= j < i ==> names[j] != name,
            None => forall|j: int| from <= j < names.len() ==> names[j] != name,
        },
    decreases names.len() - from,
{
    if from < names.len() && names[from] != name {
        lemma_first_named(names, name, from + 1);
    }
}

/// The texts of a list of names.
pub open spec fn texts(names: Seq<String>) -> Seq<Seq<char>> {
    Seq::new(names.len(), |i: int| names[i]@)
}

/// The names of a list of key types.
pub open spec fn layout_names(layouts: Seq<KeyTypeLayout>) -> Seq<Seq<char>> {
    Seq::new(layouts.len(), |i: int| layouts[i].name@)
}

/// The paths of a list of fields.
pub open spec fn field_paths(fields: Seq<FieldLayout>) -> Seq<Seq<char>> {
    Seq::new(fields.len(), |i: int| fields[i].path@)
}

/// The index of a name as an identifier, where it fits one.
pub open spec fn as_identifier(index: Option<int>) -> Option<u32> {
    match index {
        Some(i) => if 0 <= i <= u32::MAX {
            Some(i as u32)
        } else {
            None
        },
        None => None,
    }
}

impl Catalog {
    /// The identifier of the B-tree called `name`.
    pub open spec fn btree_named(self, name: Seq<char>) -> Option<u32> {
        as_identifier(first_named(texts(self.btrees@), name, 0))
    }

    /// The tag of the key type called `name`.
    pub open spec fn key_type_named(self, name: Seq<char>) -> Option<u32> {
        as_identifier(first_named(texts(self.key_types@), name, 0))
    }

    /// The place of the field `path` in the first key type called
    /// `key_type`, and in it of the first field with that path.
    pub open spec fn field_placed(self, key_type: Seq<char>, path: Seq<char>) -> Option<
        FieldPlace,
    > {
        match first_named(layout_names(self.layouts@), key_type, 0) {
            None => None,
            Some(i) => match first_named(field_paths(self.layouts@[i].fields@), path, 0) {
                None => None,
                Some(j) => Some(self.layouts@[i].fields@[j].place),
            },
        }
    }

    /// Looks up a B-tree by name.
    pub fn btree_id(&self, name: &str) -> (r: Option<u32>)
        ensures
            r == self.btree_named(name@),
    {
        find_identifier(&self.btrees, name)
    }

    /// Looks up a key type by name.
    pub fn key_type_tag(&self, name: &str) -> (r: Option<u32>)
        ensures
            r == self.key_type_named(name@),
    {
        find_identifier(&self.key_types, name)
    }

    /// Looks up the place of a field of a key type.
    pub fn field_place(&self, key_type: &str, path: &str) -> (r: Option<FieldPlace>)
        ensures
            r == self.field_placed(key_type@, path@),
    {
        let wanted = String::from_str(key_type);
        let mut i: usize = 0;
        while i < self.layouts.len()
            invariant
                i <= self.layouts@.len(),
                wanted@ == key_type@,
                first_named(layout_names(self.layouts@), key_type@, 0) == first_named(
                    layout_names(self.layouts@),
                    key_type@,
                    i as int,
                ),
            decreases self.layouts@.len() - i,
        {
            if self.layouts[i].name == wanted {
                return find_field(&self.layouts[i].fields, path);
            }
            i = i + 1;
        }
        None
    }
}

/// Finds the place of the first field of `fields` with the path `path`.
fn find_field(fields: &Vec<FieldLayout>, path: &str) -> (r: Option<FieldPlace>)
    ensures
        r == match first_named(field_paths(fields@), path@, 0) {
            None => None,
            Some(j) => Some(fields@[j].place),
        },
{
    let wanted = String::from_str(path);
    let mut j: usize = 0;
    while j < fields.len()
        invariant
            j <= fields@.len(),
            wanted@ == path@,
            first_named(field_paths(fields@), path@, 0) == first_named(
                field_paths(fields@),
                path@,
                j as int,
            ),
        decreases fields@.len() - j,
    {
        if fields[j].path == wanted {
            return Some(fields[j].place);
        }
        j = j + 1;
    }
    None
}

/// Finds the first index at which `names` holds `name`, as an identifier.
fn find_identifier(names: &Vec<String>, name: &str) -> (r: Option<u32>)
    ensures
        r == as_identifier(first_named(texts(names@), name@, 0)),
{
    let wanted = String::from_str(name);
    let mut i: usize = 0;
    while i < names.len()
        invariant
            i <= names@.len(),
            wanted@ == name@,
            first_named(texts(names@), name@, 0) == first_named(texts(names@), name@, i as int),
        decreases names@.len() - i,
    {
        if names[i] == wanted {
            if i <= 0xffff_ffff {
                return Some(i as u32);
            } else {
                return None;
            }
        }
        i = i + 1;
    }
    None
}

} // verus!
