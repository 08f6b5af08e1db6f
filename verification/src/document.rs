//! The manifest as an editable document.
//!
//! The document itself is a `toml_edit::Document`, which keeps comments,
//! spacing and key order. This module states what the library relies on when
//! it reads and edits one, over a tree of plain values (`Node`), and wraps it
//! in `ManifestDocument`.

use vstd::prelude::*;
use crate::error::{toml_error_message, ParseError};
use crate::text::is_plain;

verus! {

/// `toml_edit::Item`: one item of a document, with its formatting. Nothing
/// inside it is visible here; `item_tree` names what it holds.
#[verifier::external_type_specification]
#[verifier::external_body]
pub struct ExItem(toml_edit::Item);

/// `toml_edit::Document`: a whole document. Nothing inside it is visible
/// here; `document_tree` and `document_text` name what it holds and how it
/// prints.
#[verifier::external_type_specification]
#[verifier::external_body]
pub struct ExDocument(toml_edit::Document);

/// `toml_edit::TomlError`: why a text is no document. Its words are handed
/// to the caller.
#[verifier::external_type_specification]
#[verifier::external_body]
pub struct ExTomlError(toml_edit::TomlError);

/// What one item of a document holds, formatting left aside.
pub ghost enum Node {
    /// No item: the key is not there, or holds the empty item.
    Absent,
    /// A string value.
    Text(Seq<char>),
    /// Any other value, or an array of tables: nothing to index by key.
    Other,
    /// A table or an inline table: the items that are there, by key.
    Table(Map<Seq<char>, Node>),
}

impl Node {
    /// The item under `key`; `Absent` where there is none or where this is
    /// no table.
    pub open spec fn child(self, key: Seq<char>) -> Node {
        match self {
            Node::Table(m) => if m.contains_key(key) {
                m[key]
            } else {
                Node::Absent
            },
            _ => Node::Absent,
        }
    }

    /// This table with `sub` under `key`; anything that is no table counts
    /// as an empty one. An `Absent` item leaves no key behind.
    pub open spec fn with_child(self, key: Seq<char>, sub: Node) -> Node {
        let m = match self {
            Node::Table(m) => m,
            _ => Map::empty(),
        };
        if sub is Absent {
            Node::Table(m.remove(key))
        } else {
            Node::Table(m.insert(key, sub))
        }
    }

    /// An item that can be indexed by key for writing.
    pub open spec fn indexable(self) -> bool {
        self is Absent || self is Table
    }
}

/// What `item` holds: `Absent` for the empty item (`Item::None`), `Text`
/// for a string value with the string that it stands for, `Table` for a
/// table or an inline table with those of its items that are not empty,
/// each under its key, and `Other` for any other value and for an array of
/// tables.
pub uninterp spec fn item_tree(item: toml_edit::Item) -> Node;

/// What the root of `doc` holds.
pub uninterp spec fn document_tree(doc: toml_edit::Document) -> Node;

/// What is printed before and behind a value: space and comments.
pub type Decor = (Seq<char>, Seq<char>);

/// The decor of the value at the end of `path`, key by key below `item`;
/// the empty path stands for `item` itself. `None` where what is there is
/// no value: the empty item, a table of its own, an array of tables, or
/// nothing, because a key on the way is not there or is asked of an item
/// that is neither a table nor an inline table.
pub uninterp spec fn item_decor_at(item: toml_edit::Item, path: Seq<Seq<char>>) -> Option<Decor>;

/// The decor of the value at the end of `path` below the root of `doc`.
pub uninterp spec fn document_decor_at(doc: toml_edit::Document, path: Seq<Seq<char>>) -> Option<
    Decor,
>;

/// The decor that `toml_edit::value` gives: a space before, nothing
/// behind.
pub open spec fn plain_decor() -> Decor {
    (seq![' '], Seq::empty())
}

/// The decor of an item that has no value below it: none at any path.
pub open spec fn no_decor(item: toml_edit::Item) -> bool {
    forall|p: Seq<Seq<char>>| #[trigger] item_decor_at(item, p) is None
}

/// The decor of a value without anything below it: `decor` at the item
/// itself, none at any other path.
pub open spec fn only_decor(item: toml_edit::Item, decor: Decor) -> bool {
    forall|p: Seq<Seq<char>>| #[trigger]
        item_decor_at(item, p) == if p.len() == 0 {
            Some(decor)
        } else {
            None::<Decor>
        }
}

/// The text that `doc` is printed as.
pub uninterp spec fn document_text(doc: toml_edit::Document) -> Seq<char>;

/// What the document holds that `text` parses to; `None` if the text is no
/// document.
pub uninterp spec fn parsed_tree(text: Seq<char>) -> Option<Node>;

/// Whether the root of `doc` is a table of its own, the item
/// `Item::Table`, and no inline table or anything else. The root of a
/// document that was parsed is one, and only such a document can be
/// printed.
pub uninterp spec fn root_is_table(doc: toml_edit::Document) -> bool;

/// `str::parse::<toml_edit::Document>`, which is `Document::from_str`: the
/// document that the text states, or the parser's error. What the document
/// holds depends on the text alone. The parser starts from
/// `Document::default`, whose root is a table of its own, and fills it.
#[verifier::external_body]
fn document_from_text(text: &str) -> (r: Result<toml_edit::Document, toml_edit::TomlError>)
    ensures
        match r {
            Ok(doc) => {
                &&& parsed_tree(text@) == Some(document_tree(doc))
                &&& document_tree(doc) is Table
                &&& root_is_table(doc)
            },
            Err(_) => parsed_tree(text@) is None,
        },
{
    text.parse::<toml_edit::Document>()
}

/// `to_string` of `toml_edit::Document`: the document as text, with the
/// comments, the spacing and the order that it has kept. The call goes
/// through `Document::as_table`, which panics unless the root is a table
/// of its own.
#[verifier::external_body]
fn document_to_text(doc: &toml_edit::Document) -> (r: String)
    requires
        root_is_table(*doc),
    ensures
        r@ == document_text(*doc),
{
    doc.to_string()
}

/// The public field `root` of `toml_edit::Document`: the item that holds
/// the document, and with it every value of the document and its decor.
#[verifier::external_body]
fn document_root(doc: &toml_edit::Document) -> (r: &toml_edit::Item)
    ensures
        item_tree(*r) == document_tree(*doc),
        forall|p: Seq<Seq<char>>| #[trigger] item_decor_at(*r, p) == document_decor_at(*doc, p),
{
    &doc.root
}

/// `IndexMut<&str>` of `toml_edit::Document`: the item under `key` of the
/// root, for writing; a key that is not there is put there with the empty
/// item. The root itself is not handed out: a root that is a table of its
/// own stays one. Such a root reads the key as a TOML key, quoting it if it
/// must, and panics if that fails: a plain key comes through as it stands,
/// and then the call does not panic. What the document holds when the
/// borrow ends is what it held, with whatever was written under the key;
/// the values under other keys keep their decor.
#[verifier::external_body]
fn document_entry<'a>(doc: &'a mut toml_edit::Document, key: &str) -> (r: &'a mut toml_edit::Item)
    requires
        root_is_table(*old(doc)),
        is_plain(key@),
    ensures
        item_tree(*r) == document_tree(*old(doc)).child(key@),
        document_tree(*final(doc)) == document_tree(*old(doc)).with_child(
            key@,
            item_tree(*final(r)),
        ),
        root_is_table(*final(doc)),
        forall|p: Seq<Seq<char>>| #[trigger]
            item_decor_at(*r, p) == document_decor_at(*old(doc), seq![key@] + p),
        forall|p: Seq<Seq<char>>| #[trigger]
            document_decor_at(*final(doc), p) == if p.len() > 0 && p[0] == key@ {
                item_decor_at(*final(r), p.skip(1))
            } else {
                document_decor_at(*old(doc), p)
            },
    no_unwind
{
    &mut doc[key]
}

/// `Index<&str>` of `toml_edit::Item`: the item under `key` of a table or
/// of an inline table, the key compared as it stands; the empty item where
/// there is no such key, and for an item that is neither. It never panics.
/// The values below the item that is returned are those below `key`, each
/// with its decor.
#[verifier::external_body]
pub(crate) fn item_get<'a>(item: &'a toml_edit::Item, key: &str) -> (r: &'a toml_edit::Item)
    ensures
        item_tree(*r) == item_tree(*item).child(key@),
        forall|p: Seq<Seq<char>>| #[trigger]
            item_decor_at(*r, p) == item_decor_at(*item, seq![key@] + p),
{
    &item[key]
}

/// `IndexMut<&str>` of `toml_edit::Item`: the item under `key`, for
/// writing; a key that is not there is put there with the empty item. An
/// empty item becomes an inline table first. The call panics on any other
/// item that is neither a table nor an inline table. A table reads the key
/// as a TOML key, quoting it if it must, and panics if that fails: a plain
/// key comes through as it stands. What the item holds when the borrow
/// ends is what it held, with whatever was written under the key; the
/// values under other keys keep their decor, and so does the item itself,
/// but that an empty item has become an inline table with the decor that
/// `toml_edit::value` gives.
#[verifier::external_body]
pub(crate) fn item_entry<'a>(item: &'a mut toml_edit::Item, key: &str) -> (r:
    &'a mut toml_edit::Item)
    requires
        item_tree(*old(item)).indexable(),
        is_plain(key@),
    ensures
        item_tree(*r) == item_tree(*old(item)).child(key@),
        item_tree(*final(item)) == item_tree(*old(item)).with_child(key@, item_tree(*final(r))),
        forall|p: Seq<Seq<char>>| #[trigger]
            item_decor_at(*r, p) == item_decor_at(*old(item), seq![key@] + p),
        forall|p: Seq<Seq<char>>| #[trigger]
            item_decor_at(*final(item), p) == if p.len() > 0 && p[0] == key@ {
                item_decor_at(*final(r), p.skip(1))
            } else if p.len() == 0 && item_tree(*old(item)) is Absent {
                Some(plain_decor())
            } else {
                item_decor_at(*old(item), p)
            },
{
    &mut item[key]
}

/// `toml_edit::Item::as_str`: the string that a string value stands for;
/// `None` for anything else.
pub assume_specification<'a>[ toml_edit::Item::as_str ](item: &'a toml_edit::Item) -> (r: Option<
    &'a str,
>)
    ensures
        match r {
            Some(s) => item_tree(*item) == Node::Text(s@),
            None => !(item_tree(*item) is Text),
        },
;

/// `toml_edit::Item::is_none`: whether the item is the empty one, which
/// holds no value and so no decor.
pub assume_specification[ toml_edit::Item::is_none ](item: &toml_edit::Item) -> (r: bool)
    ensures
        r == (item_tree(*item) is Absent),
        r ==> no_decor(*item),
;

/// `toml_edit::Item::is_table_like`: whether the item is a table or an
/// inline table.
pub assume_specification[ toml_edit::Item::is_table_like ](item: &toml_edit::Item) -> (r: bool)
    ensures
        r == (item_tree(*item) is Table),
;

/// `toml_edit::table`: an empty table of its own, which is no value and
/// holds none.
pub assume_specification[ toml_edit::table ]() -> (r: toml_edit::Item)
    ensures
        item_tree(r) == Node::Table(Map::empty()),
        no_decor(r),
;

/// `toml_edit::value` on a `&str`: a string value. The function first reads
/// its argument as a TOML string, quotes and all, and puts it in quotes only
/// if that fails; it panics on text that no quoting can hold. Plain text is
/// taken as it stands: the value stands for exactly that text. The value
/// gets a space before it and nothing behind.
#[verifier::external_body]
pub(crate) fn string_item(text: &str) -> (r: toml_edit::Item)
    requires
        is_plain(text@),
    ensures
        item_tree(r) == Node::Text(text@),
        only_decor(r, plain_decor()),
{
    toml_edit::value(text)
}

/// `decor` of the `toml_edit::Value` in an item, its `prefix` and its
/// `suffix`: what is printed before and behind the value, space and
/// comment; `None` for an item that is no value.
#[verifier::external_body]
pub(crate) fn item_decor(item: &toml_edit::Item) -> (r: Option<(String, String)>)
    ensures
        match r {
            Some((before, behind)) => item_decor_at(*item, Seq::empty()) == Some(
                (before@, behind@),
            ),
            None => item_decor_at(*item, Seq::empty()) is None,
        },
{
    item.as_value().map(|v| (v.decor().prefix().to_string(), v.decor().suffix().to_string()))
}

/// `toml_edit::decorated` on the string value that `toml_edit::Value::from`
/// makes of a `&str`: a string value that is printed between `prefix` and
/// `suffix`. The text is read as by `toml_edit::value`: plain text is taken
/// as it stands.
#[verifier::external_body]
pub(crate) fn decorated_string_item(text: &str, prefix: &str, suffix: &str) -> (r: toml_edit::Item)
    requires
        is_plain(text@),
    ensures
        item_tree(r) == Node::Text(text@),
        only_decor(r, (prefix@, suffix@)),
{
    toml_edit::Item::Value(toml_edit::decorated(toml_edit::Value::from(text), prefix, suffix))
}

/// The variant `toml_edit::Item::None`: the empty item, which holds no
/// value.
#[verifier::external_body]
pub(crate) fn empty_item() -> (r: toml_edit::Item)
    ensures
        item_tree(r) is Absent,
        no_decor(r),
{
    toml_edit::Item::None
}

/// A manifest that has been read, ready to be edited and printed again.
pub struct ManifestDocument {
    doc: toml_edit::Document,
}

impl ManifestDocument {
    /// The root of a manifest is a table of its own: a manifest can always
    /// be printed.
    #[verifier::type_invariant]
    closed spec fn printable(&self) -> bool {
        root_is_table(self.doc)
    }

    /// What the manifest holds.
    pub closed spec fn tree(&self) -> Node {
        document_tree(self.doc)
    }

    /// The text that the manifest is printed as.
    pub closed spec fn text(&self) -> Seq<char> {
        document_text(self.doc)
    }

    /// What is printed before and behind the value at the end of `path`,
    /// key by key from the root; `None` where no value is.
    pub closed spec fn decor_at(&self, path: Seq<Seq<char>>) -> Option<Decor> {
        document_decor_at(self.doc, path)
    }

    /// Reads a manifest from its text.
    pub fn parse(text: &str) -> (r: Result<ManifestDocument, ParseError>)
        ensures
            match r {
                Ok(document) => {
                    &&& parsed_tree(text@) == Some(document.tree())
                    &&& document.tree() is Table
                },
                Err(e) => parsed_tree(text@) is None && e is Manifest,
            },
    {
        match document_from_text(text) {
            Ok(doc) => Ok(ManifestDocument { doc }),
            Err(e) => Err(ParseError::Manifest(toml_error_message(&e))),
        }
    }

    /// Prints the manifest.
    pub fn to_text(&self) -> (r: String)
        ensures
            r@ == self.text(),
    {
        proof {
            use_type_invariant(self);
        }
        document_to_text(&self.doc)
    }

    /// The root table, for reading.
    pub(crate) fn root(&self) -> (r: &toml_edit::Item)
        ensures
            item_tree(*r) == self.tree(),
            forall|p: Seq<Seq<char>>| #[trigger] item_decor_at(*r, p) == self.decor_at(p),
    {
        document_root(&self.doc)
    }

    /// The item under `key` of the root table, for writing: what the
    /// manifest holds when the borrow ends is what it held, with whatever
    /// was written under the key.
    pub(crate) fn entry_mut<'a>(&'a mut self, key: &str) -> (r: &'a mut toml_edit::Item)
        requires
            is_plain(key@),
        ensures
            item_tree(*r) == old(self).tree().child(key@),
            final(self).tree() == old(self).tree().with_child(key@, item_tree(*final(r))),
            forall|p: Seq<Seq<char>>| #[trigger]
                item_decor_at(*r, p) == old(self).decor_at(seq![key@] + p),
            forall|p: Seq<Seq<char>>| #[trigger]
                final(self).decor_at(p) == if p.len() > 0 && p[0] == key@ {
                    item_decor_at(*final(r), p.skip(1))
                } else {
                    old(self).decor_at(p)
                },
    {
        proof {
            use_type_invariant(&*self);
        }
        document_entry(&mut self.doc, key)
    }
}

} // verus!
