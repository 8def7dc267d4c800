use photo_cache::album::{AlbumLoad, ListedEntry, LoadEvent};
use photo_cache::cache::{
    get_preview_path_by_thumbnail, get_thumbnail_path_by_preview, join_path, plan_thumbnail, CacheDirs,
    Generation,
};
use photo_cache::classify::{classify, is_image, ImageKind};
use photo_cache::error::GenerationError;
use photo_cache::fingerprint::{fingerprint, hex_encode};
use photo_cache::metadata::{decimal_text, image_metadata, raw_metadata, MetadataError, MetadataMap, RawHeader};
use photo_cache::raw::{select_previews, split_previews, tier_payloads, EmbeddedPreview};
use photo_cache::text::replace_text;

fn entry(path: &str, is_file: bool) -> ListedEntry {
    ListedEntry { path: path.to_string(), is_file }
}

fn preview(width: u32, height: u32, data: &[u8]) -> EmbeddedPreview {
    EmbeddedPreview { width, height, data: data.to_vec() }
}

#[test]
fn classifies_by_extension_ignoring_case() {
    assert_eq!(classify("/photos/a.jpg"), Some(ImageKind::Standard));
    assert_eq!(classify("/photos/a.JPEG"), Some(ImageKind::Standard));
    assert_eq!(classify("/photos/a.Png"), Some(ImageKind::Standard));
    assert_eq!(classify("/photos/a.gif"), Some(ImageKind::Standard));
    assert_eq!(classify("/photos/a.bmp"), Some(ImageKind::Standard));
    assert_eq!(classify("/photos/a.webp"), Some(ImageKind::Standard));
    assert_eq!(classify("/photos/a.CR2"), Some(ImageKind::Raw));
    assert_eq!(classify("/photos/a.nef"), Some(ImageKind::Raw));
    assert_eq!(classify("/photos/a.Arw"), Some(ImageKind::Raw));
}

#[test]
fn rejects_other_names() {
    assert_eq!(classify("/photos/notes.txt"), None);
    assert_eq!(classify("/photos/jpg"), None);
    assert_eq!(classify("/photos/.jpg"), None);
    assert_eq!(classify("/photos.jpg/readme"), None);
    assert_eq!(classify("/"), None);
    assert_eq!(classify("."), None);
    assert_eq!(classify("/photos/a.jpg/.."), None);
    assert_eq!(classify("/photos/a.jpg.bak"), None);
    assert_eq!(classify(""), None);
    assert!(is_image("x.tar.jpg"));
    assert!(!is_image("x.jpgx"));
}

#[test]
fn trailing_separators_and_dot_components_are_ignored() {
    assert!(is_image("/a/b.jpg/"));
    assert!(is_image("/a/b.jpg//"));
    assert!(is_image("/a/b.jpg/./"));
    assert_eq!(classify("/a/b.NEF/."), Some(ImageKind::Raw));
}

#[test]
fn replaces_every_occurrence_left_to_right() {
    assert_eq!(replace_text("abcabc", "b", "xx"), "axxcaxxc");
    assert_eq!(replace_text("aaa", "aa", "b"), "ba");
    assert_eq!(replace_text("abc", "", "z"), "abc");
    assert_eq!(replace_text("", "a", "z"), "");
}

#[test]
fn fingerprint_is_md5_hex_of_path() {
    assert_eq!(fingerprint(""), "d41d8cd98f00b204e9800998ecf8427e");
    assert_eq!(fingerprint("abc"), "900150983cd24fb0d6963f7d28e17f72");
    assert_eq!(fingerprint("/a/b.jpg"), fingerprint("/a/b.jpg"));
    assert_ne!(fingerprint("/a/b.jpg"), fingerprint("/a/c.jpg"));
    assert_eq!(fingerprint("/a/b.jpg").len(), 32);
}

#[test]
fn hex_encodes_high_nibble_first() {
    assert_eq!(hex_encode(&[0x00, 0x0f, 0xa5, 0xff]), "000fa5ff");
    assert_eq!(hex_encode(&[]), "");
}

#[test]
fn tier_directories_sit_under_the_root() {
    let d = CacheDirs::under("/cache");
    assert_eq!(d.thumbnail_dir, "/cache/thumbnails");
    assert_eq!(d.preview_dir, "/cache/rawpreview");
    let d = CacheDirs::under("/cache/");
    assert_eq!(d.thumbnail_dir, "/cache/thumbnails");
    assert_eq!(join_path("", "x"), "x");
}

#[test]
fn preview_path_swaps_the_tier_segment() {
    assert_eq!(get_preview_path_by_thumbnail("/c/thumbnails/ab.jpg"), "/c/rawpreview/ab.jpg");
    assert_eq!(get_thumbnail_path_by_preview("/c/rawpreview/ab.jpg"), "/c/thumbnails/ab.jpg");
    assert_eq!(get_preview_path_by_thumbnail("/c/other/ab.jpg"), "/c/other/ab.jpg");
}

#[test]
fn raster_originals_are_decoded_into_the_thumbnail_tier() {
    let dirs = CacheDirs::under("/cache");
    let plan = plan_thumbnail(&dirs, "/album/a.jpg");
    let expected = format!("/cache/thumbnails/{}.jpg", fingerprint("/album/a.jpg"));
    assert_eq!(plan.thumbnail_path, expected);
    match &plan.generation {
        Generation::Decode { target } => assert_eq!(target, &expected),
        _ => panic!("expected a decode"),
    }
}

#[test]
fn raw_originals_fill_both_tiers() {
    let dirs = CacheDirs::under("/cache");
    let plan = plan_thumbnail(&dirs, "/album/a.NEF");
    let name = format!("{}.jpg", fingerprint("/album/a.NEF"));
    assert_eq!(plan.thumbnail_path, format!("/cache/thumbnails/{}", name));
    match &plan.generation {
        Generation::ExtractRaw { thumbnail_target, preview_target } => {
            assert_eq!(thumbnail_target, &format!("/cache/thumbnails/{}", name));
            assert_eq!(preview_target, &format!("/cache/rawpreview/{}", name));
            assert_eq!(&get_preview_path_by_thumbnail(&plan.thumbnail_path), preview_target);
        }
        _ => panic!("expected an extraction"),
    }
}

#[test]
fn second_request_is_an_existence_check() {
    let dirs = CacheDirs::under("/cache");
    let first = plan_thumbnail(&dirs, "/album/a.jpg");
    let second = plan_thumbnail(&dirs, "/album/a.jpg");
    assert_eq!(first.thumbnail_path, second.thumbnail_path);
    assert!(first.into_work(false).is_some());
    assert!(second.into_work(true).is_none());
}

#[test]
fn smallest_and_largest_preview_are_selected() {
    let v = vec![preview(160, 120, b"mid"), preview(80, 60, b"small"), preview(1600, 1200, b"large")];
    assert_eq!(select_previews(&v), Some((1, 2)));
    let t = split_previews(&v).unwrap();
    assert_eq!(t.thumbnail, b"small".to_vec());
    assert_eq!(t.preview, b"large".to_vec());
}

#[test]
fn ties_go_to_the_first_preview() {
    let v = vec![preview(10, 20, b"a"), preview(20, 10, b"b"), preview(40, 5, b"c")];
    assert_eq!(select_previews(&v), Some((0, 0)));
    assert_eq!(select_previews(&Vec::new()), None);
}

#[test]
fn two_previews_go_to_their_tiers() {
    let v = vec![preview(1024, 768, b"big"), preview(160, 120, b"small")];
    let t = tier_payloads("/album/x.cr2", &v).ok().unwrap();
    assert_eq!(t.thumbnail, b"small".to_vec());
    assert_eq!(t.preview, b"big".to_vec());
}

#[test]
fn single_preview_goes_to_both_tiers() {
    let v = vec![preview(640, 480, b"only")];
    let t = split_previews(&v).unwrap();
    assert_eq!(t.thumbnail, b"only".to_vec());
    assert_eq!(t.preview, b"only".to_vec());
}

#[test]
fn container_without_previews_is_an_extraction_error() {
    match tier_payloads("/album/x.arw", &Vec::new()) {
        Err(GenerationError::Extraction { path }) => assert_eq!(path, "/album/x.arw"),
        _ => panic!("expected an extraction error"),
    }
}

#[test]
fn huge_previews_do_not_overflow() {
    let v = vec![preview(u32::MAX, u32::MAX, b"x"), preview(u32::MAX, 2, b"y")];
    assert_eq!(select_previews(&v), Some((1, 0)));
}

fn jpeg_with_make(make: &str) -> Vec<u8> {
    let mut tiff: Vec<u8> = vec![b'I', b'I', 0x2a, 0, 8, 0, 0, 0, 1, 0, 0x0f, 0x01, 2, 0];
    let value_len = make.len() as u32 + 1;
    tiff.extend_from_slice(&value_len.to_le_bytes());
    tiff.extend_from_slice(&26u32.to_le_bytes());
    tiff.extend_from_slice(&[0, 0, 0, 0]);
    tiff.extend_from_slice(make.as_bytes());
    tiff.push(0);
    let mut out = vec![0xff, 0xd8, 0xff, 0xe1];
    let size = (2 + 6 + tiff.len()) as u16;
    out.extend_from_slice(&size.to_be_bytes());
    out.extend_from_slice(b"Exif\0\0");
    out.extend_from_slice(&tiff);
    out.extend_from_slice(&[0xff, 0xd9]);
    out
}

#[test]
fn exif_make_is_reported_under_its_tag_name() {
    let m = image_metadata("/album/a.jpg", &jpeg_with_make("Canon"), None).ok().unwrap();
    assert_eq!(m.get("Make"), Some("Canon"));
}

#[test]
fn unparsable_exif_is_an_error() {
    match image_metadata("/album/a.jpg", b"not an image", None) {
        Err(MetadataError::Parse { message }) => assert!(!message.is_empty()),
        Ok(_) => panic!("expected a parse error"),
    }
}

fn header() -> RawHeader {
    RawHeader { make: "Nikon".to_string(), model: "D750".to_string(), width: 6032, height: 4032 }
}

#[test]
fn raw_files_list_their_header_fields() {
    let m = image_metadata("/album/a.nef", b"ignored", Some(header())).ok().unwrap();
    assert_eq!(m.get("Make"), Some("Nikon"));
    assert_eq!(m.get("Model"), Some("D750"));
    assert_eq!(m.get("Width"), Some("6032"));
    assert_eq!(m.get("Height"), Some("4032"));
    assert_eq!(m.entries().len(), 4);
}

#[test]
fn unreadable_raw_header_is_an_error() {
    assert!(matches!(image_metadata("/album/a.CR2", b"", None), Err(MetadataError::Parse { .. })));
}

#[test]
fn raw_metadata_lists_four_fields() {
    let m = raw_metadata(header());
    assert_eq!(m.get("Width"), Some("6032"));
    assert_eq!(m.get("Lens"), None);
}

#[test]
fn decimal_text_has_no_leading_zeros() {
    assert_eq!(decimal_text(0), "0");
    assert_eq!(decimal_text(7), "7");
    assert_eq!(decimal_text(400), "400");
    assert_eq!(decimal_text(u32::MAX), "4294967295");
}

#[test]
fn later_tags_win() {
    let m = MetadataMap::from_pairs(vec![
        ("Make".to_string(), "Nikon".to_string()),
        ("Model".to_string(), "D750".to_string()),
        ("Make".to_string(), "Canon".to_string()),
    ]);
    assert_eq!(m.get("Make"), Some("Canon"));
    assert_eq!(m.get("Model"), Some("D750"));
    assert_eq!(m.get("Lens"), None);
    assert_eq!(MetadataMap::new().get("Make"), None);
}

#[test]
fn album_with_three_jpegs_and_a_text_file() {
    let listing = vec![
        entry("/album/a.jpg", true),
        entry("/album/notes.txt", true),
        entry("/album/b.JPG", true),
        entry("/album/c.jpeg", true),
        entry("/album/sub.jpg", false),
    ];
    let (mut load, first) = AlbumLoad::start(Some(listing));
    assert!(matches!(first, LoadEvent::AlbumMetadataReady { image_count: 3 }));
    assert_eq!(load.paths, vec!["/album/a.jpg", "/album/b.JPG", "/album/c.jpeg"]);
    let mut ready = 0;
    for i in [2usize, 0, 1] {
        let thumb = format!("/cache/thumbnails/{}.jpg", i);
        match load.report(i, Ok(thumb.clone())) {
            Some(LoadEvent::ThumbnailReady { original, thumb: t }) => {
                assert_eq!(original, load.paths[i]);
                assert_eq!(t, thumb);
                ready += 1;
            }
            _ => panic!("expected a ready event"),
        }
    }
    assert_eq!(ready, 3);
    assert!(matches!(load.finish(), Some(LoadEvent::GenerationFinished)));
    assert!(load.finish().is_none());
    assert!(load.report(0, Ok("x".to_string())).is_none());
}

#[test]
fn raw_without_previews_gives_no_ready_event() {
    let (mut load, first) = AlbumLoad::start(Some(vec![entry("/album/x.cr2", true)]));
    assert!(matches!(first, LoadEvent::AlbumMetadataReady { image_count: 1 }));
    let outcome = tier_payloads("/album/x.cr2", &Vec::new()).map(|_| String::new());
    assert!(load.report(0, outcome).is_none());
    assert_eq!(load.ready, 0);
    assert!(matches!(load.finish(), Some(LoadEvent::GenerationFinished)));
}

#[test]
fn unreadable_directory_is_an_empty_album() {
    let (mut load, first) = AlbumLoad::start(None);
    assert!(matches!(first, LoadEvent::AlbumMetadataReady { image_count: 0 }));
    assert!(matches!(load.finish(), Some(LoadEvent::GenerationFinished)));
}

#[test]
fn each_file_is_reported_once() {
    let (mut load, _) = AlbumLoad::start(Some(vec![entry("/album/a.png", true)]));
    assert!(load.report(0, Ok("t".to_string())).is_some());
    assert!(load.report(0, Ok("t".to_string())).is_none());
    assert!(load.report(5, Ok("t".to_string())).is_none());
    assert_eq!(load.ready, 1);
}
