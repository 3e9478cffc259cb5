use map_cacher::catalog::{
    AiDeclaration, CatalogEntry, MapDifficulty, MapVersion, SongMetadata, VersionState,
};
use map_cacher::eligibility::should_cache_map;
use map_cacher::encode::{
    cache_map_data, encode_map, generate_protobuf_curator, generate_protobuf_diffs,
    generate_protobuf_ranked_values, generate_protobuf_votes, EncodeError,
};
use map_cacher::hex::parse_hex_key;
use map_cacher::mods::{generate_protobuf_diff_mods, generate_protobuf_map_mods, get_map_mods};

fn difficulty() -> MapDifficulty {
    MapDifficulty {
        njs_bits: 16.0f32.to_bits(),
        notes: 512,
        characteristic_name: "Standard".to_string(),
        difficulty: "ExpertPlus".to_string(),
        environment: Some("DefaultEnvironment".to_string()),
        ss_stars_bits: None,
        bl_stars_bits: None,
        cinema: false,
        me: false,
        chroma: false,
        ne: false,
        vivify: false,
    }
}

fn entry() -> CatalogEntry {
    CatalogEntry {
        id: "1a2b".to_string(),
        uploaded: 1_700_000_000,
        last_published_at: Some(1_700_000_100),
        updated_at: Some(1_700_000_200),
        declared_ai: AiDeclaration::Undeclared,
        automapper: false,
        versions: vec![MapVersion {
            hash: "abcdef0123".to_string(),
            state: VersionState::Published,
            diffs: vec![difficulty()],
        }],
        metadata: SongMetadata {
            song_name: "Song".to_string(),
            song_sub_name: "Sub".to_string(),
            song_author_name: "Artist".to_string(),
            level_author_name: "Mapper".to_string(),
            duration: 180,
        },
        curator: None,
        upvotes: 10,
        downvotes: 2,
    }
}

#[test]
fn eligible_entry_is_cached() {
    assert!(should_cache_map(&entry()));
}

#[test]
fn unpublished_entry_is_rejected() {
    let mut e = entry();
    e.last_published_at = None;
    assert!(!should_cache_map(&e));
}

#[test]
fn unpublished_first_version_is_rejected() {
    let mut e = entry();
    e.versions[0].state = VersionState::Testplay;
    assert!(!should_cache_map(&e));
}

#[test]
fn entry_without_versions_is_rejected() {
    let mut e = entry();
    e.versions.clear();
    assert!(!should_cache_map(&e));
}

#[test]
fn ai_declared_entry_is_rejected() {
    for declared in [AiDeclaration::Admin, AiDeclaration::Uploader, AiDeclaration::SageScore] {
        let mut e = entry();
        e.declared_ai = declared;
        assert!(!should_cache_map(&e));
    }
}

#[test]
fn automapped_entry_is_rejected() {
    let mut e = entry();
    e.automapper = true;
    assert!(!should_cache_map(&e));
}

#[test]
fn chroma_only_difficulty_gives_mods_four() {
    let mut e = entry();
    e.versions[0].diffs[0].chroma = true;
    let m = encode_map(&e).unwrap();
    assert_eq!(m.mods, 4);
    assert_eq!(m.difficulties[0].mods, 4);
}

#[test]
fn map_mods_are_the_union_of_difficulty_mods() {
    let mut a = difficulty();
    a.cinema = true;
    a.ne = true;
    let mut b = difficulty();
    b.me = true;
    let mut c = difficulty();
    c.vivify = true;
    c.ne = true;
    let v = MapVersion {
        hash: "h".to_string(),
        state: VersionState::Published,
        diffs: vec![a.clone(), b.clone(), c.clone()],
    };
    let mods = get_map_mods(&v);
    assert!(mods.cinema && mods.mapping_extensions && mods.noodle_extensions && mods.vivify);
    assert!(!mods.chroma);
    assert_eq!(generate_protobuf_diff_mods(&a), 0b01001);
    assert_eq!(generate_protobuf_diff_mods(&b), 0b00010);
    assert_eq!(generate_protobuf_diff_mods(&c), 0b11000);
    assert_eq!(generate_protobuf_map_mods(&v), 0b11011);
    let all_flags = MapDifficulty {
        cinema: true,
        me: true,
        chroma: true,
        ne: true,
        vivify: true,
        ..difficulty()
    };
    assert_eq!(generate_protobuf_diff_mods(&all_flags), 31);
}

#[test]
fn empty_version_has_no_mods() {
    let v = MapVersion { hash: "h".to_string(), state: VersionState::Published, diffs: vec![] };
    assert_eq!(generate_protobuf_map_mods(&v), 0);
}

#[test]
fn negative_downvotes_clamp_to_zero() {
    let v = generate_protobuf_votes(7, -5);
    assert_eq!(v.up, 7);
    assert_eq!(v.down, 0);
    let mut e = entry();
    e.downvotes = -5;
    let m = encode_map(&e).unwrap();
    assert_eq!(m.votes.down, 0);
    assert_eq!(m.votes.up, 10);
    let mut e = entry();
    e.downvotes = -5;
    e.upvotes = -1;
    let m = cache_map_data(&e).unwrap();
    assert_eq!(m.votes.down, 0);
    assert_eq!(m.votes.up, 0);
    let w = generate_protobuf_votes(i32::MIN, i32::MAX);
    assert_eq!(w.up, 0);
    assert_eq!(w.down, i32::MAX as u32);
}

#[test]
fn encoding_twice_gives_equal_records() {
    let mut e = entry();
    e.curator = Some("Curator".to_string());
    e.versions[0].diffs.push(MapDifficulty { chroma: true, ..difficulty() });
    let a = encode_map(&e).unwrap();
    let b = encode_map(&e).unwrap();
    assert_eq!(a, b);
}

#[test]
fn record_fields_are_copied_and_converted() {
    let mut e = entry();
    e.curator = Some("Curator".to_string());
    e.versions[0].diffs[0].ss_stars_bits = Some(7.5f32.to_bits());
    let m = encode_map(&e).unwrap();
    assert_eq!(m.key, 0x1a2b);
    assert_eq!(m.hash, "abcdef0123");
    assert_eq!(m.song_name, "Song");
    assert_eq!(m.song_sub_name, "Sub");
    assert_eq!(m.song_author_name, "Artist");
    assert_eq!(m.level_author_name, "Mapper");
    assert_eq!(m.duration, 180);
    assert_eq!(m.uploaded, 1_700_000_100);
    assert_eq!(m.last_updated, 1_700_000_200);
    assert_eq!(m.curator_name, Some("Curator".to_string()));
    assert_eq!(m.difficulties.len(), 1);
    let d = &m.difficulties[0];
    assert_eq!(f32::from_bits(d.njs_bits), 16.0);
    assert_eq!(d.notes, 512);
    assert_eq!(d.characteristic_name, "Standard");
    assert_eq!(d.difficulty_name, "ExpertPlus");
    assert_eq!(d.environment_name, "DefaultEnvironment");
    assert!(d.ranked.score_saber.is_ranked);
    assert_eq!(f32::from_bits(d.ranked.score_saber.stars_bits), 7.5);
    assert!(!d.ranked.beat_leader.is_ranked);
    assert_eq!(d.ranked.beat_leader.stars_bits, 0);
}

#[test]
fn ranked_values_follow_presence_of_scores() {
    let mut d = difficulty();
    d.bl_stars_bits = Some(3.25f32.to_bits());
    let r = generate_protobuf_ranked_values(&d);
    assert!(!r.score_saber.is_ranked);
    assert_eq!(f32::from_bits(r.score_saber.stars_bits), 0.0);
    assert!(r.beat_leader.is_ranked);
    assert_eq!(f32::from_bits(r.beat_leader.stars_bits), 3.25);
}

#[test]
fn difficulties_keep_order_and_clamp_notes() {
    let mut a = difficulty();
    a.difficulty = "Easy".to_string();
    a.notes = -3;
    let mut b = difficulty();
    b.difficulty = "Hard".to_string();
    b.notes = 5_000_000_000;
    let v = MapVersion {
        hash: "h".to_string(),
        state: VersionState::Published,
        diffs: vec![a, b],
    };
    let ds = generate_protobuf_diffs(&v).unwrap();
    assert_eq!(ds.len(), 2);
    assert_eq!(ds[0].difficulty_name, "Easy");
    assert_eq!(ds[0].notes, 0);
    assert_eq!(ds[1].difficulty_name, "Hard");
    assert_eq!(ds[1].notes, 0);
}

#[test]
fn curator_name_is_kept_when_present() {
    let mut e = entry();
    assert_eq!(generate_protobuf_curator(&e), None);
    e.curator = Some("Someone".to_string());
    assert_eq!(generate_protobuf_curator(&e), Some("Someone".to_string()));
}

#[test]
fn hex_keys_parse_like_from_str_radix() {
    assert_eq!(parse_hex_key("ff"), Some(255));
    assert_eq!(parse_hex_key("1A2b"), Some(0x1a2b));
    assert_eq!(parse_hex_key("+10"), Some(16));
    assert_eq!(parse_hex_key("ffffffff"), Some(u32::MAX));
    assert_eq!(parse_hex_key("0000000000ff"), Some(255));
    assert_eq!(parse_hex_key("100000000"), None);
    assert_eq!(parse_hex_key(""), None);
    assert_eq!(parse_hex_key("+"), None);
    assert_eq!(parse_hex_key("-1"), None);
    assert_eq!(parse_hex_key("1g"), None);
    assert_eq!(parse_hex_key("\u{e9}1"), None);
    for s in ["0", "ff", "+7", "abcdef", "FFFFFFFF", "100000000", "", "+", "-0", "x"] {
        assert_eq!(parse_hex_key(s), u32::from_str_radix(s, 16).ok(), "{}", s);
    }
}

#[test]
fn each_encode_error_has_its_input() {
    let mut e = entry();
    e.versions.clear();
    assert_eq!(encode_map(&e).unwrap_err(), EncodeError::NoVersion);

    let mut e = entry();
    e.id = "zz".to_string();
    assert_eq!(encode_map(&e).unwrap_err(), EncodeError::InvalidKey);

    let mut e = entry();
    e.id = "123456789".to_string();
    assert_eq!(encode_map(&e).unwrap_err(), EncodeError::InvalidKey);

    let mut e = entry();
    e.metadata.duration = -1;
    assert_eq!(encode_map(&e).unwrap_err(), EncodeError::DurationOutOfRange);

    let mut e = entry();
    e.last_published_at = None;
    assert_eq!(encode_map(&e).unwrap_err(), EncodeError::MissingPublished);

    let mut e = entry();
    e.last_published_at = Some(1 << 32);
    assert_eq!(encode_map(&e).unwrap_err(), EncodeError::PublishedOutOfRange);

    let mut e = entry();
    e.updated_at = None;
    assert_eq!(encode_map(&e).unwrap_err(), EncodeError::MissingUpdated);

    let mut e = entry();
    e.updated_at = Some(-1);
    assert_eq!(encode_map(&e).unwrap_err(), EncodeError::UpdatedOutOfRange);

    let mut e = entry();
    e.versions[0].diffs[0].environment = None;
    assert_eq!(encode_map(&e).unwrap_err(), EncodeError::MissingEnvironment);
}

#[test]
fn largest_timestamp_is_accepted() {
    let mut e = entry();
    e.last_published_at = Some(u32::MAX as i64);
    e.updated_at = Some(u32::MAX as i64);
    let m = encode_map(&e).unwrap();
    assert_eq!(m.uploaded, u32::MAX);
    assert_eq!(m.last_updated, u32::MAX);
}

#[test]
fn cache_map_data_drops_rejected_and_invalid_entries() {
    assert!(cache_map_data(&entry()).is_some());
    let mut e = entry();
    e.automapper = true;
    assert!(cache_map_data(&e).is_none());
    let mut e = entry();
    e.id = "not hex".to_string();
    assert!(cache_map_data(&e).is_none());
}
