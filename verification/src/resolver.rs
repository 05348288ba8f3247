//! The resolution of an update command against a catalog: from the names
//! that the user wrote to the identifiers, the offset and the size that the
//! storage engine takes.

use crate::catalog::{Catalog, FieldPlace};
use crate::command::{UpdateCommand, UpdateCommandView, UpdateOperator};
use crate::position::BTreePosition;
use crate::text::{literal_at, match_literal, to_chars};
use vstd::prelude::*;

verus! {

/// The tag of the key type that an update addresses.
#[derive(Clone, Copy, Debug, PartialEq, Eq, Structural)]
pub enum KeyTypeTag {
    /// The tag of a key type of the catalog.
    Tag(u32),
    /// The tag behind the last key type. It stands where the key is
    /// addressed as an unpacked inode and no key type is looked up.
    Max,
}

/// An update with every name resolved: what the storage engine's update
/// operation takes.
#[derive(Clone, Copy, Debug, PartialEq, Eq, Structural)]
pub struct ResolvedUpdate {
    pub btree_id: u32,
    pub key_type_tag: KeyTypeTag,
    pub is_inode_unpacked: bool,
    pub field_offset: u32,
    pub field_size: u32,
    pub operator: UpdateOperator,
    pub value: u64,
    pub position: BTreePosition,
}

/// The name that an update command could not be resolved for.
#[derive(Debug, PartialEq, Eq)]
pub enum FieldResolutionError {
    /// The catalog has no B-tree of this name.
    UnknownBtree { name: String },
    /// The name lacks the prefix of key types, or the catalog has no key
    /// type of the name behind the prefix.
    UnknownKeyType { name: String },
    /// The key type has no layout in the catalog, or no field at this path.
    UnknownField { path: String },
}

/// A resolution error as contracts speak of it.
pub enum FieldResolutionErrorView {
    UnknownBtree { name: Seq<char> },
    UnknownKeyType { name: Seq<char> },
    UnknownField { path: Seq<char> },
}

impl View for FieldResolutionError {
    type V = FieldResolutionErrorView;

    open spec fn view(&self) -> FieldResolutionErrorView {
        match self {
            FieldResolutionError::UnknownBtree { name } => FieldResolutionErrorView::UnknownBtree {
                name: name@,
            },
            FieldResolutionError::UnknownKeyType { name } => {
                FieldResolutionErrorView::UnknownKeyType { name: name@ }
            },
            FieldResolutionError::UnknownField { path } => FieldResolutionErrorView::UnknownField {
                path: path@,
            },
        }
    }
}

/// Where a report to the user goes.
#[derive(Clone, Copy, Debug, PartialEq, Eq, Structural)]
pub enum Stream {
    /// The standard output.
    Output,
    /// The standard error.
    Diagnostic,
}

impl FieldResolutionErrorView {
    /// The text that names what is unknown.
    pub open spec fn message_text(self) -> Seq<char> {
        match self {
            FieldResolutionErrorView::UnknownBtree { name } => "unknown btree '"@ + name + "'"@,
            FieldResolutionErrorView::UnknownKeyType { name } => "unknown bkey type '"@ + name
                + "'"@,
            FieldResolutionErrorView::UnknownField { path } => "unknown field '"@ + path + "'"@,
        }
    }

    /// Where the text goes: an unknown field is an answer to the user, an
    /// unknown B-tree or key type a diagnostic.
    pub open spec fn stream(self) -> Stream {
        match self {
            FieldResolutionErrorView::UnknownField { .. } => Stream::Output,
            _ => Stream::Diagnostic,
        }
    }
}

impl FieldResolutionError {
    /// Renders the error for the user.
    pub fn message(&self) -> (text: String)
        ensures
            text@ == self@.message_text(),
    {
        match self {
            FieldResolutionError::UnknownBtree { name } => {
                let mut text = String::from_str("unknown btree '");
                text.append(name.as_str());
                text.append("'");
                text
            },
            FieldResolutionError::UnknownKeyType { name } => {
                let mut text = String::from_str("unknown bkey type '");
                text.append(name.as_str());
                text.append("'");
                text
            },
            FieldResolutionError::UnknownField { path } => {
                let mut text = String::from_str("unknown field '");
                text.append(path.as_str());
                text.append("'");
                text
            },
        }
    }

    /// The stream that the error is reported on.
    pub fn stream(&self) -> (stream: Stream)
        ensures
            stream == self@.stream(),
    {
        match self {
            FieldResolutionError::UnknownField { .. } => Stream::Output,
            _ => Stream::Diagnostic,
        }
    }
}

/// The prefix that the name of a key type carries in a command.
pub open spec fn key_type_prefix() -> Seq<char> {
    "bch_"@
}

/// The name that addresses a key as an unpacked inode.
pub open spec fn inode_unpacked_name() -> Seq<char> {
    "bch_inode_unpacked"@
}

/// The name under which the catalog lists the key type that a command calls
/// `name`: `name` without its prefix, if it has the prefix.
pub open spec fn tag_name(name: Seq<char>) -> Option<Seq<char>> {
    if literal_at(name, 0, key_type_prefix()) {
        Some(name.subrange(key_type_prefix().len() as int, name.len() as int))
    } else {
        None
    }
}

/// The tag that the key type name of a command selects. The name of the
/// unpacked inode selects `Max` whatever the catalog lists; any other name
/// selects the tag of the key type that the catalog lists under the name
/// behind the prefix.
pub open spec fn tag_selected(catalog: Catalog, name: Seq<char>) -> Option<KeyTypeTag> {
    if name == inode_unpacked_name() {
        Some(KeyTypeTag::Max)
    } else {
        match tag_name(name) {
            None => None,
            Some(listed) => match catalog.key_type_named(listed) {
                None => None,
                Some(tag) => Some(KeyTypeTag::Tag(tag)),
            },
        }
    }
}

/// What an update command resolves to. The B-tree is looked up first, then
/// the key type, then the field under the key type's full name; the first
/// name that is unknown is the error.
pub open spec fn resolution(catalog: Catalog, update: UpdateCommandView) -> Result<
    ResolvedUpdate,
    FieldResolutionErrorView,
> {
    match catalog.btree_named(update.btree_name) {
        None => Err(FieldResolutionErrorView::UnknownBtree { name: update.btree_name }),
        Some(btree_id) => match tag_selected(catalog, update.key_type_name) {
            None => Err(FieldResolutionErrorView::UnknownKeyType { name: update.key_type_name }),
            Some(key_type_tag) => match catalog.field_placed(
                update.key_type_name,
                update.field_path,
            ) {
                None => Err(FieldResolutionErrorView::UnknownField { path: update.field_path }),
                Some(place) => Ok(
                    ResolvedUpdate {
                        btree_id,
                        key_type_tag,
                        is_inode_unpacked: key_type_tag is Max,
                        field_offset: place.offset,
                        field_size: place.size,
                        operator: update.operator,
                        value: update.value,
                        position: update.position,
                    },
                ),
            },
        },
    }
}

/// The view of a resolution's result.
pub open spec fn resolved_view(r: Result<ResolvedUpdate, FieldResolutionError>) -> Result<
    ResolvedUpdate,
    FieldResolutionErrorView,
> {
    match r {
        Ok(resolved) => Ok(resolved),
        Err(error) => Err(error@),
    }
}

/// The view of a name that may be missing.
pub open spec fn name_view(name: Option<String>) -> Option<Seq<char>> {
    match name {
        Some(name) => Some(name@),
        None => None,
    }
}

/// Strips the prefix of key types from `name`, if `name` has it.
pub fn strip_prefix(name: &str) -> (r: Option<String>)
    ensures
        name_view(r) == tag_name(name@),
{
    let chars = to_chars(name);
    if !match_literal(chars.as_slice(), 0, "bch_") {
        return None;
    }
    proof {
        reveal_strlit("bch_");
    }
    Some(String::from_str(name.substring_char(4, chars.len())))
}

/// Tells whether `name` addresses a key as an unpacked inode.
pub fn is_inode_unpacked(name: &str) -> (r: bool)
    ensures
        r == (name@ == inode_unpacked_name()),
{
    let chars = to_chars(name);
    proof {
        reveal_strlit("bch_inode_unpacked");
        assert(name@.subrange(0, name@.len() as int) =~= name@);
    }
    chars.len() == 18 && match_literal(chars.as_slice(), 0, "bch_inode_unpacked")
}

/// Selects the tag for the key type name of a command.
pub fn select_tag(catalog: &Catalog, name: &str) -> (r: Option<KeyTypeTag>)
    ensures
        r == tag_selected(*catalog, name@),
{
    if is_inode_unpacked(name) {
        return Some(KeyTypeTag::Max);
    }
    match strip_prefix(name) {
        None => None,
        Some(listed) => match catalog.key_type_tag(listed.as_str()) {
            Some(tag) => Some(KeyTypeTag::Tag(tag)),
            None => None,
        },
    }
}

/// Resolves the names of an update command against the catalog.
pub fn resolve(catalog: &Catalog, update: &UpdateCommand) -> (r: Result<
    ResolvedUpdate,
    FieldResolutionError,
>)
    ensures
        resolved_view(r) == resolution(*catalog, update@),
{
    let btree_id = match catalog.btree_id(update.btree_name.as_str()) {
        Some(id) => id,
        None => {
            return Err(FieldResolutionError::UnknownBtree { name: update.btree_name.clone() });
        },
    };
    let key_type_tag = match select_tag(catalog, update.key_type_name.as_str()) {
        Some(tag) => tag,
        None => {
            return Err(
                FieldResolutionError::UnknownKeyType { name: update.key_type_name.clone() },
            );
        },
    };
    let place: FieldPlace = match catalog.field_place(
        update.key_type_name.as_str(),
        update.field_path.as_str(),
    ) {
        Some(place) => place,
        None => {
            return Err(FieldResolutionError::UnknownField { path: update.field_path.clone() });
        },
    };
    let is_inode_unpacked = match key_type_tag {
        KeyTypeTag::Max => true,
        KeyTypeTag::Tag(_) => false,
    };
    Ok(
        ResolvedUpdate {
            btree_id,
            key_type_tag,
            is_inode_unpacked,
            field_offset: place.offset,
            field_size: place.size,
            operator: update.operator,
            value: update.value,
            position: update.position,
        },
    )
}

/// An update of the unpacked inode does not depend on the key types that
/// the catalog lists: it resolves alike under any list of them, and where
/// it resolves, it is marked as unpacked inode and carries the tag `Max`.
pub proof fn lemma_inode_unpacked_bypasses_tags(
    catalog: Catalog,
    other: Catalog,
    update: UpdateCommandView,
)
    requires
        update.key_type_name == inode_unpacked_name(),
        other.btrees == catalog.btrees,
        other.layouts == catalog.layouts,
    ensures
        resolution(other, update) == resolution(catalog, update),
        resolution(catalog, update) matches Ok(resolved) ==> resolved.is_inode_unpacked
            && resolved.key_type_tag is Max,
{
}

/// Only the unpacked inode is marked as such: an update resolves with the
/// mark exactly where its key type name is the name of the unpacked inode.
pub proof fn lemma_mark_follows_name(catalog: Catalog, update: UpdateCommandView)
    ensures
        resolution(catalog, update) matches Ok(resolved) ==> (resolved.is_inode_unpacked
            <==> update.key_type_name == inode_unpacked_name()) && (resolved.is_inode_unpacked
            <==> resolved.key_type_tag is Max),
{
}

} // verus!
