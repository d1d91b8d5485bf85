//! The canonical, format-bound tag container.

use vstd::prelude::*;

use crate::item::{mapping_defined, ItemKey, TagType};
use crate::picture::{same_picture, Picture, PictureType};
use crate::search::{
    first_where, lemma_first_where_at, lemma_first_where_props, lemma_first_where_push,
};

verus! {

/// A tag item's value.
///
/// The `Locator` and `Binary` variants are only meaningful for APE tags;
/// writing one to another tag type is silently ignored, never an error.
#[derive(Clone, Debug)]
pub enum ItemValue {
    /// Any UTF-8 encoded text.
    Text(String),
    /// (APE only) a UTF-8 encoded locator of external information.
    Locator(String),
    /// (APE only) binary information, most likely a picture.
    Binary(Vec<u8>),
}

/// A tag item: a canonical key together with its value.
#[derive(Clone, Debug)]
pub struct TagItem {
    item_key: ItemKey,
    item_value: ItemValue,
}

impl TagItem {
    /// The canonical key of this item.
    pub closed spec fn key_spec(&self) -> ItemKey {
        self.item_key
    }

    /// The value of this item.
    pub closed spec fn value_spec(&self) -> ItemValue {
        self.item_value
    }

    /// Creates a new item, checking validity against `tag_type`: if the
    /// key has no mapping in the target format, `None` is returned.
    ///
    /// Doing this before [`Tag::insert_item`] is redundant, as insertion
    /// performs the same validity check itself.
    pub fn new_checked(tag_type: &TagType, item_key: ItemKey, item_value: ItemValue) -> (r: Option<
        Self,
    >)
        ensures
            match r {
                Some(item) => mapping_defined(item_key, *tag_type) && item.key_spec() == item_key
                    && item.value_spec() == item_value,
                None => !mapping_defined(item_key, *tag_type),
            },
    {
        if item_key.map_key(tag_type).is_some() {
            Some(Self { item_key, item_value })
        } else {
            None
        }
    }

    /// Creates a new item without any format validity check.
    pub fn new(item_key: ItemKey, item_value: ItemValue) -> (r: Self)
        ensures
            r.key_spec() == item_key,
            r.value_spec() == item_value,
    {
        Self { item_key, item_value }
    }

    /// The canonical key.
    pub fn key(&self) -> (r: &ItemKey)
        ensures
            *r == self.key_spec(),
    {
        &self.item_key
    }

    /// The value.
    pub fn value(&self) -> (r: &ItemValue)
        ensures
            *r == self.value_spec(),
    {
        &self.item_value
    }

    /// Revalidates this item against a (possibly different) tag type,
    /// keeping it only where its key has a mapping there.
    pub fn re_map(self, tag_type: &TagType) -> (r: Option<Self>)
        ensures
            mapping_defined(self.key_spec(), *tag_type) ==> r == Some(self),
            !mapping_defined(self.key_spec(), *tag_type) ==> r is None,
    {
        if self.item_key.map_key(tag_type).is_some() {
            Some(self)
        } else {
            None
        }
    }
}

/// The items carrying `key` as their canonical key.
pub open spec fn item_with_key(key: ItemKey) -> spec_fn(TagItem) -> bool {
    |item: TagItem| item.key_spec() == key
}

/// The index of the first item with `key`, if any.
pub open spec fn find_index(items: Seq<TagItem>, key: ItemKey) -> Option<int> {
    first_where(items, item_with_key(key))
}

/// The first item with `key`, if any.
pub open spec fn find_item(items: Seq<TagItem>, key: ItemKey) -> Option<TagItem> {
    match find_index(items, key) {
        Some(i) => Some(items[i]),
        None => None,
    }
}

/// The pictures carrying `pic_type` as their declared type.
pub open spec fn pic_with_type(pic_type: PictureType) -> spec_fn(Picture) -> bool {
    |p: Picture| p.pic_type == pic_type
}

/// A parsed tag: an ordered collection of items plus a separate
/// collection of pictures, bound to one tag format.
#[derive(Debug)]
pub struct Tag {
    tag_type: TagType,
    pictures: Vec<Picture>,
    items: Vec<TagItem>,
}

impl Tag {
    /// The format this tag is bound to.
    pub closed spec fn type_spec(&self) -> TagType {
        self.tag_type
    }

    /// The stored items, in insertion order.
    pub closed spec fn items_seq(&self) -> Seq<TagItem> {
        self.items@
    }

    /// The stored pictures, in insertion order.
    pub closed spec fn pictures_seq(&self) -> Seq<Picture> {
        self.pictures@
    }

    /// Container invariant: at most one item per canonical key, and every
    /// item's key has a mapping in this tag's own format.
    pub open spec fn wf(&self) -> bool {
        &&& forall|i: int, j: int|
            0 <= i < j < self.items_seq().len() ==> (#[trigger] self.items_seq()[i]).key_spec() != (
            #[trigger] self.items_seq()[j]).key_spec()
        &&& forall|i: int|
            0 <= i < self.items_seq().len() ==> mapping_defined(
                (#[trigger] self.items_seq()[i]).key_spec(),
                self.type_spec(),
            )
    }

    /// Creates an empty tag bound to `tag_type`.
    pub fn new(tag_type: TagType) -> (r: Self)
        ensures
            r.type_spec() == tag_type,
            r.items_seq() == Seq::<TagItem>::empty(),
            r.pictures_seq() == Seq::<Picture>::empty(),
            r.wf(),
    {
        Self { tag_type, pictures: Vec::new(), items: Vec::new() }
    }

    /// The tag's format.
    pub fn tag_type(&self) -> (r: &TagType)
        ensures
            *r == self.type_spec(),
    {
        &self.tag_type
    }

    /// The number of stored pictures.
    pub fn picture_count(&self) -> (r: u32)
        requires
            self.pictures_seq().len() <= u32::MAX,
        ensures
            r == self.pictures_seq().len(),
    {
        self.pictures.len() as u32
    }

    /// The number of stored items.
    pub fn item_count(&self) -> (r: u32)
        requires
            self.items_seq().len() <= u32::MAX,
        ensures
            r == self.items_seq().len(),
    {
        self.items.len() as u32
    }

    /// The stored pictures as a slice.
    pub fn pictures(&self) -> (r: &[Picture])
        ensures
            r@ == self.pictures_seq(),
    {
        self.pictures.as_slice()
    }

    /// Appends a picture to the tag.
    pub fn push_picture(&mut self, picture: Picture)
        ensures
            final (self).pictures_seq() == old(self).pictures_seq().push(picture),
            final (self).items_seq() == old(self).items_seq(),
            final (self).type_spec() == old(self).type_spec(),
    {
        self.pictures.push(picture)
    }

    /// Removes the first picture declared as `picture_type`, if any.
    pub fn remove_picture_type(&mut self, picture_type: PictureType)
        ensures
            final (self).items_seq() == old(self).items_seq(),
            final (self).type_spec() == old(self).type_spec(),
            match first_where(old(self).pictures_seq(), pic_with_type(picture_type)) {
                None => final (self).pictures_seq() == old(self).pictures_seq(),
                Some(i) => final (self).pictures_seq() == old(self).pictures_seq().remove(i),
            },
    {
        let ghost pred = pic_with_type(picture_type);
        let n = self.pictures.len();
        let mut i: usize = 0;
        while i < n
            invariant
                n == self.pictures@.len(),
                0 <= i <= n,
                self == old(self),
                pred == pic_with_type(picture_type),
                forall|j: int| 0 <= j < i ==> !pred(#[trigger] self.pictures@[j]),
            decreases n - i,
        {
            if self.pictures[i].pic_type == picture_type {
                proof {
                    assert(pred(self.pictures@[i as int]));
                    lemma_first_where_at(self.pictures@, pred, i as int);
                }
                self.pictures.remove(i);
                return ;
            }
            i += 1;
        }
        proof {
            lemma_first_where_at(self.pictures@, pred, n as int);
        }
    }

    /// Removes every picture equal in value to `picture`.
    pub fn remove_picture(&mut self, picture: &Picture)
        ensures
            final (self).items_seq() == old(self).items_seq(),
            final (self).type_spec() == old(self).type_spec(),
            final (self).pictures_seq() == old(self).pictures_seq().filter(
                |p: Picture| !same_picture(p, *picture),
            ),
    {
        let ghost orig = self.pictures@;
        let ghost pred = |p: Picture| !same_picture(p, *picture);
        let ghost mut j: int = 0;
        proof {
            assert(orig.subrange(0, 0).filter(pred) =~= Seq::<Picture>::empty());
            assert(orig.subrange(0, orig.len() as int) =~= orig);
        }
        let mut i: usize = 0;
        while i < self.pictures.len()
            invariant
                0 <= j <= orig.len(),
                pred == (|p: Picture| !same_picture(p, *picture)),
                self.items@ == old(self).items@,
                self.tag_type == old(self).tag_type,
                orig == old(self).pictures@,
                self.pictures@ == orig.subrange(0, j).filter(pred) + orig.subrange(
                    j,
                    orig.len() as int,
                ),
                i == orig.subrange(0, j).filter(pred).len(),
            decreases orig.len() - j,
        {
            proof {
                reveal_with_fuel(Seq::<Picture>::filter, 2);
                assert(self.pictures@[i as int] == orig.subrange(j, orig.len() as int)[0]);
                assert(orig.subrange(j, orig.len() as int)[0] == orig[j]);
                assert(orig.subrange(0, j + 1).drop_last() =~= orig.subrange(0, j));
                assert(orig.subrange(0, j + 1).last() == orig[j]);
            }
            let matches_arg = &self.pictures[i] == picture;
            if matches_arg {
                self.pictures.remove(i);
                proof {
                    reveal_with_fuel(Seq::<Picture>::filter, 2);
                    assert(!pred(orig[j]));
                    assert(orig.subrange(0, j + 1).filter(pred) =~= orig.subrange(0, j).filter(
                        pred,
                    ));
                    assert(self.pictures@ =~= orig.subrange(0, j + 1).filter(pred) + orig.subrange(
                        j + 1,
                        orig.len() as int,
                    ));
                    j = j + 1;
                }
            } else {
                i += 1;
                proof {
                    reveal_with_fuel(Seq::<Picture>::filter, 2);
                    assert(pred(orig[j]));
                    assert(orig.subrange(0, j + 1).filter(pred) =~= orig.subrange(0, j).filter(
                        pred,
                    ).push(orig[j]));
                    assert(self.pictures@ =~= orig.subrange(0, j + 1).filter(pred) + orig.subrange(
                        j + 1,
                        orig.len() as int,
                    ));
                    j = j + 1;
                }
            }
        }
        proof {
            reveal_with_fuel(Seq::<Picture>::filter, 2);
            assert(j == orig.len());
            assert(orig.subrange(j, orig.len() as int) =~= Seq::<Picture>::empty());
            assert(self.pictures@ =~= orig.subrange(0, j).filter(pred));
            assert(orig.subrange(0, j) =~= orig);
        }
    }

    /// The stored items as a slice.
    pub fn items(&self) -> (r: &[TagItem])
        ensures
            r@ == self.items_seq(),
    {
        self.items.as_slice()
    }

    /// Returns the item stored under `item_key`, if any.
    pub fn get_item_ref(&self, item_key: &ItemKey) -> (r: Option<&TagItem>)
        ensures
            match r {
                Some(item) => find_item(self.items_seq(), *item_key) == Some(*item),
                None => find_item(self.items_seq(), *item_key) is None,
            },
    {
        let ghost pred = item_with_key(*item_key);
        let n = self.items.len();
        let mut i: usize = 0;
        while i < n
            invariant
                n == self.items@.len(),
                0 <= i <= n,
                pred == item_with_key(*item_key),
                forall|j: int| 0 <= j < i ==> !pred(#[trigger] self.items@[j]),
            decreases n - i,
        {
            if self.items[i].key() == item_key {
                proof {
                    assert(pred(self.items@[i as int]));
                    lemma_first_where_at(self.items@, pred, i as int);
                }
                return Some(&self.items[i]);
            }
            i += 1;
        }
        proof {
            lemma_first_where_at(self.items@, pred, n as int);
        }
        None
    }

    /// Inserts `item`, replacing any existing item stored under the same
    /// canonical key.
    ///
    /// Returns `true` when the item was inserted or replaced; `false` is
    /// returned exactly when the item's key has no mapping in this tag's
    /// format, in which case the tag is left unchanged.
    pub fn insert_item(&mut self, item: TagItem) -> (r: bool)
        requires
            old(self).wf(),
        ensures
            final (self).wf(),
            final (self).type_spec() == old(self).type_spec(),
            final (self).pictures_seq() == old(self).pictures_seq(),
            r == mapping_defined(item.key_spec(), old(self).type_spec()),
            !r ==> final (self).items_seq() == old(self).items_seq(),
            r ==> match find_index(old(self).items_seq(), item.key_spec()) {
                None => final (self).items_seq() == old(self).items_seq().push(item),
                Some(k) => final (self).items_seq() == old(self).items_seq().update(k, item),
            },
            r ==> find_item(final (self).items_seq(), item.key_spec()) == Some(item),
            forall|k2: ItemKey|
                k2 != item.key_spec() ==> find_item(final (self).items_seq(), k2) == find_item(
                    old(self).items_seq(),
                    k2,
                ),
    {
        let ghost orig = self.items@;
        let remapped = item.re_map(&self.tag_type);
        match remapped {
            None => false,
            Some(valid) => {
                let key: ItemKey = *valid.key();
                let ghost pred = item_with_key(key);
                let n = self.items.len();
                let mut i: usize = 0;
                while i < n
                    invariant
                        n == self.items@.len(),
                        0 <= i <= n,
                        self == old(self),
                        valid == item,
                        key == item.key_spec(),
                        orig == old(self).items@,
                        old(self).wf(),
                        pred == item_with_key(key),
                        mapping_defined(item.key_spec(), old(self).type_spec()),
                        forall|j: int| 0 <= j < i ==> !pred(#[trigger] self.items@[j]),
                    decreases n - i,
                {
                    if self.items[i].key() == &key {
                        proof {
                            assert(pred(self.items@[i as int]));
                            lemma_first_where_at(self.items@, pred, i as int);
                        }
                        self.items[i] = valid;
                        proof {
                            lemma_insert_update(orig, item, i as int);
                            let updated = self.items@;
                            assert(updated == orig.update(i as int, item));
                            assert forall|a: int, b: int|
                                0 <= a < b < updated.len() implies (
                            #[trigger] updated[a]).key_spec() != (
                            #[trigger] updated[b]).key_spec() by {
                                assert(orig[a].key_spec() != orig[b].key_spec());
                                if a == i as int {
                                    assert(orig[a].key_spec() == key);
                                    assert(updated[b] == orig[b]);
                                } else if b == i as int {
                                    assert(orig[b].key_spec() == key);
                                    assert(updated[a] == orig[a]);
                                } else {
                                    assert(updated[a] == orig[a] && updated[b] == orig[b]);
                                }
                            }
                            assert forall|a: int|
                                0 <= a < updated.len() implies mapping_defined(
                                (#[trigger] updated[a]).key_spec(),
                                old(self).type_spec(),
                            ) by {
                                if a != i as int {
                                    assert(updated[a] == orig[a]);
                                }
                            }
                        }
                        return true;
                    }
                    i += 1;
                }
                proof {
                    lemma_first_where_at(self.items@, pred, n as int);
                }
                self.items.push(valid);
                proof {
                    lemma_insert_push(orig, item);
                    assert forall|a: int, b: int|
                        0 <= a < b < self.items@.len() implies (
                    #[trigger] self.items@[a]).key_spec() != (
                    #[trigger] self.items@[b]).key_spec() by {
                        if b < orig.len() {
                        } else {
                            assert(self.items@[b] == item);
                            assert(!pred(orig[a]));
                        }
                    }
                }
                true
            },
        }
    }
}

/// Pushing an item whose key is absent makes it findable under its key and
/// leaves every other key's binding as it was.
proof fn lemma_insert_push(items: Seq<TagItem>, item: TagItem)
    requires
        find_index(items, item.key_spec()) is None,
    ensures
        find_item(items.push(item), item.key_spec()) == Some(item),
        forall|k2: ItemKey|
            k2 != item.key_spec() ==> find_item(items.push(item), k2) == find_item(items, k2),
{
    lemma_first_where_push(items, item_with_key(item.key_spec()), item);
    assert(items.push(item)[items.len() as int] == item);
    assert forall|k2: ItemKey|
        k2 != item.key_spec() implies find_item(items.push(item), k2) == find_item(items, k2) by {
        let pred2 = item_with_key(k2);
        lemma_first_where_push(items, pred2, item);
        lemma_first_where_props(items, pred2);
        match first_where(items, pred2) {
            Some(m) => {
                assert(items.push(item)[m] == items[m]);
            },
            None => {
                assert(!pred2(item));
            },
        }
    }
}

/// Replacing the first item of a key with another item of the same key
/// rebinds that key and leaves every other key's binding as it was.
proof fn lemma_insert_update(items: Seq<TagItem>, item: TagItem, i: int)
    requires
        find_index(items, item.key_spec()) == Some(i),
        0 <= i < items.len(),
    ensures
        find_item(items.update(i, item), item.key_spec()) == Some(item),
        forall|k2: ItemKey|
            k2 != item.key_spec() ==> find_item(items.update(i, item), k2) == find_item(items, k2),
{
    let key = item.key_spec();
    let pred = item_with_key(key);
    let updated = items.update(i, item);
    lemma_first_where_props(items, pred);
    assert forall|j: int| 0 <= j < i implies !pred(#[trigger] updated[j]) by {
        assert(updated[j] == items[j]);
    }
    assert(updated[i] == item);
    lemma_first_where_at(updated, pred, i);
    assert(find_item(updated, key) == Some(item));
    assert forall|k2: ItemKey| k2 != key implies find_item(updated, k2) == find_item(items, k2) by {
        let pred2 = item_with_key(k2);
        assert forall|j: int| 0 <= j < items.len() implies pred2(#[trigger] items[j]) == pred2(
            #[trigger] updated[j],
        ) by {
            if j == i {
                assert(items[i].key_spec() == key);
                assert(updated[i].key_spec() == key);
            }
        }
        crate::search::lemma_first_where_agree(items, updated, pred2);
        lemma_first_where_props(items, pred2);
        match first_where(items, pred2) {
            Some(m) => {
                assert(items[m].key_spec() == k2);
                assert(m != i);
                assert(updated[m] == items[m]);
            },
            None => {},
        }
    }
}

/// Inserting an item into an empty tag makes it retrievable, unchanged,
/// under its canonical key.
pub proof fn lemma_insert_into_empty_then_get(item: TagItem)
    ensures
        find_item(Seq::<TagItem>::empty().push(item), item.key_spec()) == Some(item),
{
    lemma_first_where_push(Seq::<TagItem>::empty(), item_with_key(item.key_spec()), item);
    assert(Seq::<TagItem>::empty().push(item)[0] == item);
}

/// Removing pictures of one declared type removes at most one picture and
/// leaves the pictures of every other declared type intact.
pub proof fn lemma_remove_picture_type_spares_others(
    before: Seq<Picture>,
    after: Seq<Picture>,
    pic_type: PictureType,
)
    requires
        match first_where(before, pic_with_type(pic_type)) {
            None => after == before,
            Some(i) => after == before.remove(i),
        },
    ensures
        after.len() >= before.len() - 1,
        forall|other: PictureType|
            other != pic_type ==> after.filter(pic_with_type(other)) == before.filter(
                pic_with_type(other),
            ),
{
    lemma_first_where_props(before, pic_with_type(pic_type));
    assert forall|other: PictureType|
        other != pic_type implies after.filter(pic_with_type(other)) == before.filter(
        pic_with_type(other),
    ) by {
        match first_where(before, pic_with_type(pic_type)) {
            None => {},
            Some(i) => {
                assert(before[i].pic_type == pic_type);
                lemma_filter_remove_nonmatching(before, pic_with_type(other), i);
            },
        }
    }
}

/// Removing an element on which a predicate fails does not change the
/// filtered sequence.
proof fn lemma_filter_remove_nonmatching(s: Seq<Picture>, pred: spec_fn(Picture) -> bool, i: int)
    requires
        0 <= i < s.len(),
        !pred(s[i]),
    ensures
        s.remove(i).filter(pred) == s.filter(pred),
    decreases s.len(),
{
    reveal_with_fuel(Seq::<Picture>::filter, 2);
    if i == s.len() - 1 {
        assert(s.remove(i) =~= s.drop_last());
        assert(s.last() == s[i]);
        assert(s.filter(pred) == s.drop_last().filter(pred));
    } else {
        assert(s.remove(i).drop_last() =~= s.drop_last().remove(i));
        assert(s.remove(i).last() == s.last());
        lemma_filter_remove_nonmatching(s.drop_last(), pred, i);
    }
}

} // verus!
