use audiotag::item::{ItemKey, TagType};
use audiotag::picture::{MimeType, Picture, PictureType};
use audiotag::tag::{ItemValue, Tag, TagItem};

fn text_of(item: &TagItem) -> Option<&str> {
    match item.value() {
        ItemValue::Text(s) => Some(s.as_str()),
        _ => None,
    }
}

#[test]
fn insert_then_get_returns_inserted_value() {
    let mut tag = Tag::new(TagType::Opus);
    let item = TagItem::new(ItemKey::Title, ItemValue::Text("Song".to_string()));
    assert!(tag.insert_item(item));
    let got = tag.get_item_ref(&ItemKey::Title).expect("item should be present");
    assert_eq!(*got.key(), ItemKey::Title);
    assert_eq!(text_of(got), Some("Song"));
}

#[test]
fn insert_without_mapping_is_rejected_unchanged() {
    let mut tag = Tag::new(TagType::AiffText);
    let item = TagItem::new(ItemKey::Year, ItemValue::Text("1999".to_string()));
    assert!(!tag.insert_item(item));
    assert_eq!(tag.item_count(), 0);
    assert!(tag.get_item_ref(&ItemKey::Year).is_none());
}

#[test]
fn vorbis_insert_replaces_same_key() {
    let mut tag = Tag::new(TagType::Vorbis);
    assert!(tag.insert_item(TagItem::new(
        ItemKey::TrackNumber,
        ItemValue::Text("3".to_string())
    )));
    assert_eq!(tag.item_count(), 1);
    assert!(tag.insert_item(TagItem::new(
        ItemKey::TrackNumber,
        ItemValue::Text("4".to_string())
    )));
    assert_eq!(tag.item_count(), 1);
    let got = tag.get_item_ref(&ItemKey::TrackNumber).expect("item should be present");
    assert_eq!(text_of(got), Some("4"));
}

#[test]
fn insert_keeps_other_keys() {
    let mut tag = Tag::new(TagType::Flac);
    assert!(tag.insert_item(TagItem::new(ItemKey::Title, ItemValue::Text("A".to_string()))));
    assert!(tag.insert_item(TagItem::new(ItemKey::Artist, ItemValue::Text("B".to_string()))));
    assert!(tag.insert_item(TagItem::new(ItemKey::Title, ItemValue::Text("C".to_string()))));
    assert_eq!(tag.item_count(), 2);
    assert_eq!(text_of(tag.get_item_ref(&ItemKey::Artist).unwrap()), Some("B"));
    assert_eq!(text_of(tag.get_item_ref(&ItemKey::Title).unwrap()), Some("C"));
    assert_eq!(tag.items().len(), 2);
}

#[test]
fn tag_type_is_kept() {
    let tag = Tag::new(TagType::Mp4);
    assert_eq!(*tag.tag_type(), TagType::Mp4);
}

#[test]
fn new_checked_validates_against_format() {
    let ok = TagItem::new_checked(
        &TagType::Opus,
        ItemKey::Title,
        ItemValue::Text("x".to_string()),
    );
    assert!(ok.is_some());
    let bad = TagItem::new_checked(
        &TagType::Id3v2,
        ItemKey::TrackTotal,
        ItemValue::Text("x".to_string()),
    );
    assert!(bad.is_none());
}

#[test]
fn re_map_drops_unmapped_keys() {
    let item = TagItem::new(ItemKey::DiscTotal, ItemValue::Text("2".to_string()));
    assert!(item.re_map(&TagType::Ape).is_none());
    let item = TagItem::new(ItemKey::DiscTotal, ItemValue::Text("2".to_string()));
    assert!(item.re_map(&TagType::Vorbis).is_some());
}

#[test]
fn map_key_matches_format_vocabulary() {
    assert_eq!(ItemKey::Title.map_key(&TagType::Opus), Some("TITLE"));
    assert_eq!(ItemKey::Year.map_key(&TagType::Vorbis), Some("DATE"));
    assert_eq!(ItemKey::Title.map_key(&TagType::Id3v2), Some("TIT2"));
    assert_eq!(ItemKey::TrackTotal.map_key(&TagType::Id3v2), None);
    assert_eq!(ItemKey::Album.map_key(&TagType::AiffText), None);
    assert_eq!(ItemKey::Artist.map_key(&TagType::RiffInfo), Some("IART"));
}

fn pic(pic_type: PictureType, byte: u8) -> Picture {
    Picture { pic_type, mime_type: MimeType::Png, data: vec![byte] }
}

#[test]
fn remove_picture_type_removes_at_most_one() {
    let mut tag = Tag::new(TagType::Opus);
    tag.push_picture(pic(PictureType::CoverFront, 1));
    tag.push_picture(pic(PictureType::CoverBack, 2));
    tag.push_picture(pic(PictureType::CoverFront, 3));
    assert_eq!(tag.picture_count(), 3);
    tag.remove_picture_type(PictureType::CoverFront);
    assert_eq!(tag.picture_count(), 2);
    // The back cover and the second front cover are untouched.
    assert_eq!(tag.pictures()[0], pic(PictureType::CoverBack, 2));
    assert_eq!(tag.pictures()[1], pic(PictureType::CoverFront, 3));
    tag.remove_picture_type(PictureType::Icon);
    assert_eq!(tag.picture_count(), 2);
}

#[test]
fn remove_picture_removes_by_value() {
    let mut tag = Tag::new(TagType::Opus);
    tag.push_picture(pic(PictureType::CoverFront, 1));
    tag.push_picture(pic(PictureType::CoverFront, 1));
    tag.push_picture(pic(PictureType::CoverFront, 2));
    tag.remove_picture(&pic(PictureType::CoverFront, 1));
    assert_eq!(tag.picture_count(), 1);
    assert_eq!(tag.pictures()[0], pic(PictureType::CoverFront, 2));
}
