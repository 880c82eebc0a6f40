use blend2d::array::{Array, ArrayType};
use blend2d::variant::ImplType;
use blend2d::codec::{
    best_score, same_text, CodecRegistry, ImageCodec, ImageCodecFeatures, ImageInfo, Session,
    SessionAction, SessionPhase,
    FEATURE_EXIF, FEATURE_LOSSLESS, FEATURE_LOSSY, FEATURE_READ, FEATURE_WRITE,
};
use blend2d::error::Error;

fn bmp() -> ImageCodec {
    ImageCodec::new(
        "BMP",
        "Blend2D",
        "image/x-bmp",
        "bmp|ras",
        ImageCodecFeatures::from_bits_truncate(FEATURE_READ | FEATURE_WRITE | FEATURE_LOSSLESS),
    )
}

fn jpeg() -> ImageCodec {
    ImageCodec::new(
        "JPEG",
        "Blend2D",
        "image/jpeg",
        "jpg|jpeg|jif|jfi|jfif",
        ImageCodecFeatures::from_bits_truncate(FEATURE_READ | FEATURE_LOSSY),
    )
}

fn png() -> ImageCodec {
    ImageCodec::new(
        "PNG",
        "Blend2D",
        "image/png",
        "png",
        ImageCodecFeatures::from_bits_truncate(FEATURE_READ | FEATURE_WRITE | FEATURE_LOSSLESS),
    )
}

fn write_only() -> ImageCodec {
    ImageCodec::new(
        "RAW",
        "Nobody",
        "application/octet-stream",
        "",
        ImageCodecFeatures::from_bits_truncate(FEATURE_WRITE),
    )
}

fn registry() -> CodecRegistry {
    let mut registry = CodecRegistry::new();
    ImageCodec::add_to_built_in(&mut registry, &bmp()).unwrap();
    ImageCodec::add_to_built_in(&mut registry, &jpeg()).unwrap();
    ImageCodec::add_to_built_in(&mut registry, &png()).unwrap();
    registry
}

fn info() -> ImageInfo {
    ImageInfo { width: 4, height: 3, flags: 0, depth: 32, plane_count: 1, frame_count: 1 }
}

#[test]
fn test_built_in_codecs() {
    let registry = registry();
    assert_ne!(ImageCodec::built_in_codecs(&registry).len(), 0)
}

#[test]
fn test_encoder_creation() {
    let registry = registry();
    let codecs = ImageCodec::built_in_codecs(&registry);
    let codec = codecs.as_slice().first().unwrap();
    let encoder = codec
        .create_encoder()
        .expect("codec does not support encoding");
    assert_eq!(codec, encoder.codec());
}

#[test]
fn test_decoder_creation() {
    let registry = registry();
    let codecs = ImageCodec::built_in_codecs(&registry);
    let codec = codecs.as_slice().first().unwrap();
    let decoder = codec
        .create_decoder()
        .expect("codec does not support decoding");
    assert_eq!(codec, decoder.codec());
}

#[test]
fn codec_reports_what_it_was_made_with() {
    let codec = jpeg();
    assert_eq!(codec.name(), "JPEG");
    assert_eq!(codec.vendor(), "Blend2D");
    assert_eq!(codec.mime_type(), "image/jpeg");
    assert_eq!(codec.extension_list(), "jpg|jpeg|jif|jfi|jfif");
    assert_eq!(codec.extensions(), vec!["jpg", "jpeg", "jif", "jfi", "jfif"]);
    assert_eq!(codec.features().bits(), FEATURE_READ | FEATURE_LOSSY);
    assert!(codec.features().contains(FEATURE_READ));
    assert!(codec.features().contains(FEATURE_READ | FEATURE_LOSSY));
    assert!(!codec.features().contains(FEATURE_WRITE));
    assert!(!codec.features().contains(FEATURE_READ | FEATURE_WRITE));
}

#[test]
fn extensions_are_split_at_every_bar() {
    let make = |extensions: &str| {
        ImageCodec::new("X", "", "", extensions, ImageCodecFeatures::empty())
    };
    assert_eq!(make("png").extensions(), vec!["png"]);
    assert_eq!(make("").extensions(), vec![""]);
    assert_eq!(make("|").extensions(), vec!["", ""]);
    assert_eq!(make("a|").extensions(), vec!["a", ""]);
    assert_eq!(make("|a").extensions(), vec!["", "a"]);
    assert_eq!(make("a||b").extensions(), vec!["a", "", "b"]);
    assert_eq!(make("bmp|ras").extensions(), vec!["bmp", "ras"]);
    assert_eq!(make("é|日本|x").extensions(), vec!["é", "日本", "x"]);
}

#[test]
fn none_codec_knows_nothing() {
    let codec = ImageCodec::none();
    assert_eq!(codec.name(), "");
    assert_eq!(codec.vendor(), "");
    assert_eq!(codec.mime_type(), "");
    assert_eq!(codec.extensions(), vec![""]);
    assert_eq!(codec.features().bits(), 0);
    assert!(codec.create_decoder().is_none());
    assert!(codec.create_encoder().is_none());
    assert!(codec == ImageCodec::none());
    assert!(codec.impl_equals(&ImageCodec::none().clone()));
    assert!(codec != ImageCodec::new("", "", "", "", ImageCodecFeatures::empty()));
    assert!(ImageCodec::new("", "", "", "", ImageCodecFeatures::empty()) != codec);
    assert!(codec != bmp());
}

#[test]
fn feature_bits_are_truncated_to_features() {
    assert_eq!(ImageCodecFeatures::from_bits_truncate(0xffff_ffff).bits(), 0x7000_001f);
    assert_eq!(ImageCodecFeatures::from_bits_truncate(0x20).bits(), 0);
    assert_eq!(ImageCodecFeatures::from_bits_truncate(FEATURE_EXIF | 0x40).bits(), FEATURE_EXIF);
    assert_eq!(ImageCodecFeatures::empty().bits(), 0);
    assert!(ImageCodecFeatures::empty().contains(0));
}

#[test]
fn codecs_compare_by_identity() {
    let a = bmp();
    let b = a.clone();
    assert!(a == b);
    assert!(b == a);
    assert!(a.impl_equals(&b));
    assert!(a == a);
    assert!(bmp() != bmp());
    assert!(a != bmp());
    assert!(a != png());
    assert_eq!(a.name(), bmp().name());
    let mut list = Array::<ImageCodec>::new();
    list.push(a.clone()).unwrap();
    let mut twin = Array::<ImageCodec>::new();
    twin.push(a.clone()).unwrap();
    assert!(list == twin);
    let mut stranger = Array::<ImageCodec>::new();
    stranger.push(bmp()).unwrap();
    assert!(list != stranger);
}

#[test]
fn capability_decides_what_a_codec_creates() {
    assert!(jpeg().create_decoder().is_some());
    assert!(jpeg().create_encoder().is_none());
    assert!(write_only().create_decoder().is_none());
    assert!(write_only().create_encoder().is_some());
    let codec = png();
    let decoder = codec.create_decoder().unwrap();
    assert_eq!(decoder.frame_index(), 0);
    assert_eq!(decoder.buffer_index(), 0);
    assert_eq!(decoder.last_result(), Ok(()));
    assert_eq!(decoder.phase(), SessionPhase::Created);
    assert!(decoder.codec() == &codec);
    assert!(decoder.codec() != &png());
}

#[test]
fn registry_rejects_duplicates_and_strangers() {
    let (first, second) = (bmp(), png());
    let mut registry = CodecRegistry::new();
    assert_eq!(ImageCodec::built_in_codecs(&registry).len(), 0);
    assert_eq!(ImageCodec::remove_from_built_in(&mut registry, &first), Err(Error::NoEntry));
    assert_eq!(ImageCodec::add_to_built_in(&mut registry, &first), Ok(()));
    assert_eq!(ImageCodec::add_to_built_in(&mut registry, &first), Err(Error::AlreadyExists));
    assert_eq!(
        ImageCodec::add_to_built_in(&mut registry, &first.clone()),
        Err(Error::AlreadyExists)
    );
    assert_eq!(ImageCodec::add_to_built_in(&mut registry, &second), Ok(()));
    assert_eq!(registry.index_of(&second), Some(1));
    assert_eq!(registry.index_of(&first.clone()), Some(0));
    assert_eq!(registry.index_of(&jpeg()), None);
    assert_eq!(registry.index_of(&png()), None);
    assert_eq!(ImageCodec::remove_from_built_in(&mut registry, &png()), Err(Error::NoEntry));
    let snapshot = ImageCodec::built_in_codecs(&registry);
    assert_eq!(ImageCodec::remove_from_built_in(&mut registry, &first), Ok(()));
    assert_eq!(ImageCodec::remove_from_built_in(&mut registry, &first), Err(Error::NoEntry));
    let now = ImageCodec::built_in_codecs(&registry);
    assert_eq!(now.len(), 1);
    assert_eq!(now.as_slice()[0].name(), "PNG");
    assert_eq!(snapshot.len(), 2);
    assert_eq!(snapshot.as_slice()[0].name(), "BMP");
    let twin = bmp();
    assert_eq!(ImageCodec::add_to_built_in(&mut registry, &twin), Ok(()));
    assert_eq!(ImageCodec::add_to_built_in(&mut registry, &first), Ok(()));
    assert_eq!(registry.index_of(&first), Some(2));
    assert_eq!(registry.index_of(&twin), Some(1));
}

#[test]
fn codec_is_found_by_name() {
    let codecs = ImageCodec::built_in_codecs(&registry());
    assert_eq!(codecs.find_codec_by_name("PNG").map(|c| c.mime_type()), Some("image/png"));
    assert_eq!(codecs.find_codec_by_name("BMP").map(|c| c.mime_type()), Some("image/x-bmp"));
    assert!(codecs.find_codec_by_name("png").is_none());
    assert!(codecs.find_codec_by_name("").is_none());
    assert!(Array::<ImageCodec>::new().find_codec_by_name("PNG").is_none());
    let mut twice = Array::<ImageCodec>::new();
    twice.push(ImageCodec::new("X", "first", "", "", ImageCodecFeatures::empty())).unwrap();
    twice.push(ImageCodec::new("X", "second", "", "", ImageCodecFeatures::empty())).unwrap();
    assert_eq!(twice.find_codec_by_name("X").map(|c| c.vendor()), Some("first"));
}

#[test]
fn codec_is_found_by_the_best_score() {
    let codecs = ImageCodec::built_in_codecs(&registry());
    assert_eq!(codecs.find_codec_by_data(&[0, 100, 0]).map(|c| c.name()), Some("JPEG"));
    assert_eq!(codecs.find_codec_by_data(&[1, 0, 0]).map(|c| c.name()), Some("BMP"));
    assert_eq!(codecs.find_codec_by_data(&[10, 20, 30]).map(|c| c.name()), Some("PNG"));
    assert_eq!(codecs.find_codec_by_data(&[50, 50, 50]).map(|c| c.name()), Some("BMP"));
    assert_eq!(codecs.find_codec_by_data(&[10, 50, 50]).map(|c| c.name()), Some("JPEG"));
    assert!(codecs.find_codec_by_data(&[0, 0, 0]).is_none());
    assert!(codecs.find_codec_by_data(&[1, 2]).is_none());
    assert!(codecs.find_codec_by_data(&[1, 2, 3, 4]).is_none());
    assert!(Array::<ImageCodec>::new().find_codec_by_data(&[]).is_none());
}

#[test]
fn selection_is_the_same_on_every_call() {
    let codecs = ImageCodec::built_in_codecs(&registry());
    let scores = [7, 9, 9];
    let first = codecs.find_codec_by_data(&scores).map(|c| c.name());
    for _ in 0..10 {
        assert_eq!(codecs.find_codec_by_data(&scores).map(|c| c.name()), first);
    }
    assert_eq!(first, Some("JPEG"));
}

#[test]
fn best_score_is_the_first_maximum() {
    assert_eq!(best_score(&[]), None);
    assert_eq!(best_score(&[0]), None);
    assert_eq!(best_score(&[0, 0, 0]), None);
    assert_eq!(best_score(&[1]), Some(0));
    assert_eq!(best_score(&[0, 7, 7]), Some(1));
    assert_eq!(best_score(&[3, 2, 1]), Some(0));
    assert_eq!(best_score(&[1, 2, 3]), Some(2));
    assert_eq!(best_score(&[5, 9, 5, 9]), Some(1));
    assert_eq!(best_score(&[u32::MAX, u32::MAX]), Some(0));
}

#[test]
fn decoder_reads_header_then_frame() {
    let codec = bmp();
    let mut decoder = codec.create_decoder().unwrap();
    assert_eq!(decoder.read_info(Ok((info(), 54))), Ok(info()));
    assert_eq!(decoder.buffer_index(), 54);
    assert_eq!(decoder.frame_index(), 0);
    assert_eq!(decoder.phase(), SessionPhase::Streaming);
    assert_eq!(decoder.read_frame(Ok(("pixels", 102))), Ok("pixels"));
    assert_eq!(decoder.buffer_index(), 102);
    assert_eq!(decoder.frame_index(), 1);
    assert_eq!(decoder.last_result(), Ok(()));
    assert!(decoder.codec() == &codec);
}

#[test]
fn decoder_records_a_failure_until_restart() {
    let codec = bmp();
    let mut decoder = codec.create_decoder().unwrap();
    assert_eq!(decoder.read_frame(Ok((1u8, 10))), Ok(1));
    assert_eq!(decoder.read_frame::<u8>(Err(Error::InvalidData)), Err(Error::InvalidData));
    assert_eq!(decoder.frame_index(), 1);
    assert_eq!(decoder.buffer_index(), 10);
    assert_eq!(decoder.last_result(), Err(Error::InvalidData));
    assert_eq!(decoder.phase(), SessionPhase::Errored);
    assert_eq!(decoder.read_frame(Ok((2u8, 20))), Err(Error::InvalidData));
    assert_eq!(decoder.read_info(Ok((info(), 5))), Err(Error::InvalidData));
    assert_eq!(decoder.frame_index(), 1);
    assert_eq!(decoder.buffer_index(), 10);
    assert_eq!(decoder.restart(), Ok(()));
    assert_eq!(decoder.last_result(), Ok(()));
    assert_eq!(decoder.frame_index(), 0);
    assert_eq!(decoder.buffer_index(), 0);
    assert_eq!(decoder.phase(), SessionPhase::Created);
    assert_eq!(decoder.read_frame(Ok((3u8, 30))), Ok(3));
    assert!(decoder.codec() == &codec);
}

#[test]
fn decoder_header_failure_is_recorded() {
    let mut decoder = png().create_decoder().unwrap();
    assert_eq!(decoder.read_info(Err(Error::DataTruncated)), Err(Error::DataTruncated));
    assert_eq!(decoder.read_info(Err(Error::Format(3))), Err(Error::DataTruncated));
    let mut other = png().create_decoder().unwrap();
    assert_eq!(other.read_info(Err(Error::Format(3))), Err(Error::Format(3)));
    assert_eq!(other.phase(), SessionPhase::Errored);
    assert_eq!(decoder.last_result(), Err(Error::DataTruncated));
    assert_eq!(decoder.frame_index(), 0);
    assert_eq!(decoder.buffer_index(), 0);
    let mut exhausted = png().create_decoder().unwrap();
    assert_eq!(exhausted.read_frame::<u8>(Err(Error::NoMoreData)), Err(Error::NoMoreData));
    assert_eq!(exhausted.phase(), SessionPhase::Exhausted);
}

#[test]
fn restart_twice_is_restart_once() {
    let mut decoder = bmp().create_decoder().unwrap();
    decoder.read_frame(Ok(((), 77))).unwrap();
    decoder.restart().unwrap();
    assert_eq!((decoder.frame_index(), decoder.buffer_index()), (0, 0));
    decoder.restart().unwrap();
    assert_eq!((decoder.frame_index(), decoder.buffer_index()), (0, 0));
    assert_eq!(decoder.last_result(), Ok(()));
    let mut encoder = bmp().create_encoder().unwrap();
    encoder.write_frame(Ok(Array::from_slice(&[1, 2, 3]).unwrap())).unwrap();
    encoder.restart().unwrap();
    assert_eq!((encoder.frame_index(), encoder.buffer_index()), (0, 0));
    encoder.restart().unwrap();
    assert_eq!((encoder.frame_index(), encoder.buffer_index()), (0, 0));
    assert_eq!(encoder.last_result(), Ok(()));
}

#[test]
fn encoder_hands_the_bytes_on() {
    let codec = png();
    let mut encoder = codec.create_encoder().unwrap();
    let bytes = Array::<u8>::from_slice(&[137, 80, 78, 71]).unwrap();
    let written = encoder.write_frame(Ok(bytes.clone())).unwrap();
    assert_eq!(written.as_slice(), &[137, 80, 78, 71]);
    assert_eq!(encoder.frame_index(), 1);
    assert_eq!(encoder.buffer_index(), 4);
    assert_eq!(encoder.phase(), SessionPhase::Streaming);
    assert!(matches!(encoder.write_frame(Err(Error::OutOfMemory)), Err(Error::OutOfMemory)));
    assert!(matches!(encoder.write_frame(Ok(bytes)), Err(Error::OutOfMemory)));
    assert_eq!(encoder.frame_index(), 1);
    assert_eq!(encoder.last_result(), Err(Error::OutOfMemory));
    assert!(encoder.codec() == &codec);
}

#[test]
fn sessions_compare_by_identity() {
    let codec = bmp();
    let mut a = codec.create_decoder().unwrap();
    let b = codec.create_decoder().unwrap();
    let c = a.clone();
    assert!(a == c);
    assert!(a.impl_equals(&c));
    assert!(c.impl_equals(&a));
    assert!(a.codec() == c.codec());
    assert!(a != b);
    assert!(!a.impl_equals(&b));
    assert!(!a.impl_equals(&png().create_decoder().unwrap()));
    a.read_frame(Ok(((), 1))).unwrap();
    assert!(a != c);
    assert_eq!(c.frame_index(), 0);
    assert_eq!(a.frame_index(), 1);
    let e = codec.create_encoder().unwrap();
    let f = e.clone();
    assert!(e == f);
    assert!(e.impl_equals(&f));
    assert!(e.codec() == f.codec());
    assert!(e != codec.create_encoder().unwrap());
    assert!(!e.impl_equals(&png().create_encoder().unwrap()));
}

#[test]
fn session_steps_follow_the_protocol() {
    let mut s = Session::initial();
    assert_eq!(s.phase(), SessionPhase::Created);
    s.header_done(Ok(8));
    assert_eq!(s, Session { last_error: None, frame_index: 0, buffer_index: 8 });
    s.frame_done(Ok(20));
    assert_eq!(s, Session { last_error: None, frame_index: 1, buffer_index: 20 });
    s.frame_done(Err(Error::InvalidData));
    assert_eq!(
        s,
        Session { last_error: Some(Error::InvalidData), frame_index: 1, buffer_index: 20 }
    );
    s.header_done(Ok(1));
    s.frame_done(Ok(2));
    assert_eq!(
        s,
        Session { last_error: Some(Error::InvalidData), frame_index: 1, buffer_index: 20 }
    );
    let mut last = Session { last_error: None, frame_index: u64::MAX, buffer_index: 0 };
    last.frame_done(Ok(5));
    assert_eq!(
        last,
        Session { last_error: Some(Error::NoMoreData), frame_index: u64::MAX, buffer_index: 0 }
    );
    assert_eq!(last.phase(), SessionPhase::Exhausted);
}

#[test]
fn image_infos_and_codecs_are_array_elements() {
    assert_eq!(<ImageInfo as ArrayType>::impl_type(), ImplType::ArrayStruct24);
    assert_eq!(<ImageCodec as ArrayType>::impl_type(), ImplType::ArrayVar);
    let mut infos = Array::<ImageInfo>::new();
    infos.push(info()).unwrap();
    assert_eq!(infos.as_slice(), &[info()]);
    assert_eq!(infos.capacity(), 3);
    assert!(info().same(&info()));
    let codec = bmp();
    assert!(codec.same(&codec.retain()));
    assert!(!codec.same(&bmp()));
    assert!(registry().is_valid());
    assert!(CodecRegistry::new().is_valid());
}

#[test]
fn the_codec_that_knows_no_format_is_one_codec() {
    let mut registry = CodecRegistry::new();
    let named = bmp();
    ImageCodec::add_to_built_in(&mut registry, &named).unwrap();
    assert_eq!(registry.index_of(&ImageCodec::none()), None);
    assert_eq!(
        ImageCodec::remove_from_built_in(&mut registry, &ImageCodec::none()),
        Err(Error::NoEntry)
    );
    assert_eq!(ImageCodec::add_to_built_in(&mut registry, &ImageCodec::none()), Ok(()));
    assert_eq!(
        ImageCodec::add_to_built_in(&mut registry, &ImageCodec::none()),
        Err(Error::AlreadyExists)
    );
    assert_eq!(registry.index_of(&ImageCodec::none()), Some(1));
    assert_eq!(registry.index_of(&named), Some(0));
    let blank = ImageCodec::new("", "", "", "", ImageCodecFeatures::empty());
    assert_eq!(registry.index_of(&blank), None);
    assert_eq!(ImageCodec::remove_from_built_in(&mut registry, &ImageCodec::none()), Ok(()));
    assert_eq!(ImageCodec::built_in_codecs(&registry).len(), 1);
    assert_eq!(registry.index_of(&named), Some(0));
}

#[test]
fn a_session_that_carries_a_failure_takes_no_step() {
    let mut decoder = bmp().create_decoder().unwrap();
    assert_eq!(decoder.next_action(), SessionAction::Proceed);
    decoder.read_frame(Ok(((), 4))).unwrap();
    assert_eq!(decoder.next_action(), SessionAction::Proceed);
    assert_eq!(decoder.read_info(Err(Error::DataTruncated)), Err(Error::DataTruncated));
    assert_eq!(decoder.next_action(), SessionAction::Report(Error::DataTruncated));
    decoder.restart().unwrap();
    assert_eq!(decoder.next_action(), SessionAction::Proceed);
    let mut encoder = bmp().create_encoder().unwrap();
    assert_eq!(encoder.next_action(), SessionAction::Proceed);
    assert!(encoder.write_frame(Err(Error::Format(9))).is_err());
    assert_eq!(encoder.next_action(), SessionAction::Report(Error::Format(9)));
    assert_eq!(Session::initial().next_action(), SessionAction::Proceed);
    let failed = Session { last_error: Some(Error::NoMoreData), frame_index: 3, buffer_index: 0 };
    assert_eq!(failed.next_action(), SessionAction::Report(Error::NoMoreData));
}

#[test]
fn texts_compare_byte_by_byte() {
    assert!(same_text("", ""));
    assert!(same_text("PNG", "PNG"));
    assert!(!same_text("PNG", "png"));
    assert!(!same_text("PNG", "PN"));
    assert!(!same_text("", "x"));
    assert!(same_text("日本", "日本"));
    assert!(!same_text("日本", "日木"));
}
