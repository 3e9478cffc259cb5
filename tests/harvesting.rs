use map_cacher::catalog::{
    AiDeclaration, CatalogEntry, MapDifficulty, MapVersion, SongMetadata, VersionState,
};
use map_cacher::encode::encode_map;
use map_cacher::harvest::{
    FetchOutcome, Harvest, HarvestPhase, HarvestStep, PageQuery, BACKOFF_MILLIS, PAGE_SIZE,
    PAUSE_MILLIS,
};
use map_cacher::snapshot::MapList;
use map_cacher::writer::compress_snapshot;
use std::io::Read;

fn entry(id: &str, uploaded: i64) -> CatalogEntry {
    CatalogEntry {
        id: id.to_string(),
        uploaded,
        last_published_at: Some(uploaded + 5),
        updated_at: Some(uploaded + 10),
        declared_ai: AiDeclaration::Undeclared,
        automapper: false,
        versions: vec![MapVersion {
            hash: format!("hash-{}", id),
            state: VersionState::Published,
            diffs: vec![MapDifficulty {
                njs_bits: 18.0f32.to_bits(),
                notes: 300,
                characteristic_name: "Standard".to_string(),
                difficulty: "Expert".to_string(),
                environment: Some("BigMirrorEnvironment".to_string()),
                ss_stars_bits: Some(4.5f32.to_bits()),
                bl_stars_bits: None,
                cinema: false,
                me: false,
                chroma: true,
                ne: false,
                vivify: false,
            }],
        }],
        metadata: SongMetadata {
            song_name: format!("song {}", id),
            song_sub_name: String::new(),
            song_author_name: "artist".to_string(),
            level_author_name: "mapper".to_string(),
            duration: 200,
        },
        curator: None,
        upvotes: 1,
        downvotes: 0,
    }
}

fn ineligible(id: &str, uploaded: i64) -> CatalogEntry {
    let mut e = entry(id, uploaded);
    e.declared_ai = AiDeclaration::Uploader;
    e
}

fn run(h: &mut Harvest, outcome: FetchOutcome) -> (PageQuery, HarvestStep) {
    let q = h.next_query();
    let s = h.record(outcome);
    (q, s)
}

#[test]
fn two_pages_then_empty_page_finish_with_both_pages() {
    let mut h = Harvest::starting_at(2_000_000_000);
    let page1 = vec![entry("a1", 1_900), ineligible("a2", 1_800), entry("a3", 1_700)];
    let page2 = vec![entry("b1", 1_600), ineligible("b2", 1_500)];

    let (q, s) = run(&mut h, FetchOutcome::Page(page1));
    assert_eq!(q, PageQuery { before: 2_000_000_000, page_size: PAGE_SIZE, automapper: false });
    assert_eq!(s, HarvestStep::Pause { millis: PAUSE_MILLIS });
    assert_eq!(h.cursor(), 1_700);

    let (q, s) = run(&mut h, FetchOutcome::Page(page2));
    assert_eq!(q.before, 1_700);
    assert_eq!(s, HarvestStep::Pause { millis: PAUSE_MILLIS });
    // the cursor follows the last entry even when it was rejected
    assert_eq!(h.cursor(), 1_500);

    let (q, s) = run(&mut h, FetchOutcome::Page(vec![]));
    assert_eq!(q.before, 1_500);
    assert_eq!(s, HarvestStep::Finished);
    assert!(h.is_done());
    assert_eq!(h.phase(), HarvestPhase::Done);
    assert_eq!(h.cursor(), 1_500);

    let maps = h.into_maps();
    assert_eq!(maps.len(), 3);
    for id in ["a1", "a3", "b1"] {
        let m = maps.get(&id.to_string()).unwrap();
        assert_eq!(m.song_name, format!("song {}", id));
    }
    assert!(maps.get(&"a2".to_string()).is_none());
    assert!(maps.get(&"b2".to_string()).is_none());
}

fn harvest_with(outcomes: Vec<FetchOutcome>) -> (Harvest, Vec<HarvestStep>, Vec<PageQuery>) {
    let mut h = Harvest::starting_at(10_000);
    let mut steps = Vec::new();
    let mut queries = Vec::new();
    for o in outcomes {
        let (q, s) = run(&mut h, o);
        queries.push(q);
        steps.push(s);
        if h.is_done() {
            break;
        }
    }
    (h, steps, queries)
}

#[test]
fn transient_failure_is_retried_with_one_backoff() {
    let page = || vec![entry("c1", 9_000), entry("c2", 8_000)];
    let (clean, clean_steps, _) =
        harvest_with(vec![FetchOutcome::Page(page()), FetchOutcome::Page(vec![])]);
    let (retried, retried_steps, queries) = harvest_with(vec![
        FetchOutcome::Transient,
        FetchOutcome::Page(page()),
        FetchOutcome::Page(vec![]),
    ]);
    assert_eq!(retried_steps[0], HarvestStep::Backoff { millis: BACKOFF_MILLIS });
    assert_eq!(&retried_steps[1..], &clean_steps[..]);
    assert_eq!(queries[0], queries[1]);
    assert_eq!(clean.cursor(), retried.cursor());
    let a = clean.into_maps();
    let b = retried.into_maps();
    assert_eq!(a.len(), b.len());
    for (id, m) in a.entries() {
        assert_eq!(b.get(id), Some(m));
    }
}

#[test]
fn transient_failure_enters_retrying() {
    let mut h = Harvest::starting_at(50);
    let (_, s) = run(&mut h, FetchOutcome::Transient);
    assert_eq!(s, HarvestStep::Backoff { millis: 3000 });
    assert_eq!(h.phase(), HarvestPhase::Retrying);
    assert_eq!(h.cursor(), 50);
}

#[test]
fn malformed_answer_ends_the_harvest() {
    let mut h = Harvest::starting_at(50);
    run(&mut h, FetchOutcome::Page(vec![entry("d1", 40)]));
    let (_, s) = run(&mut h, FetchOutcome::Malformed);
    assert_eq!(s, HarvestStep::Finished);
    assert!(h.is_done());
    assert_eq!(h.cursor(), 40);
    assert_eq!(h.into_maps().len(), 1);
}

#[test]
fn first_query_uses_page_size_one_hundred() {
    let mut h = Harvest::starting_at(1_700_000_000);
    assert_eq!(h.cursor(), 1_700_000_000);
    assert_eq!(h.phase(), HarvestPhase::Fetching);
    assert_eq!(h.maps().len(), 0);
    let q = h.next_query();
    assert_eq!(q.page_size, 100);
    assert!(!q.automapper);
    assert_eq!(q.before, 1_700_000_000);
}

#[test]
fn later_record_replaces_earlier_one() {
    let mut h = Harvest::starting_at(100);
    let mut newer = entry("e1", 90);
    newer.upvotes = 42;
    run(&mut h, FetchOutcome::Page(vec![entry("e1", 95), newer]));
    let maps = h.maps();
    assert_eq!(maps.len(), 1);
    assert_eq!(maps.get(&"e1".to_string()).unwrap().votes.up, 42);
}

#[test]
fn snapshot_insert_and_get() {
    let mut maps = MapList::new();
    assert_eq!(maps.len(), 0);
    let m = encode_map(&entry("f1", 10)).unwrap();
    maps.insert("f1".to_string(), m.clone());
    maps.insert("f2".to_string(), m.clone());
    assert_eq!(maps.len(), 2);
    let mut n = m.clone();
    n.mods = 0;
    maps.insert("f1".to_string(), n.clone());
    assert_eq!(maps.len(), 2);
    assert_eq!(maps.get(&"f1".to_string()), Some(&n));
    assert_eq!(maps.get(&"f2".to_string()), Some(&m));
    assert_eq!(maps.get(&"f3".to_string()), None);
}

fn gunzip(bytes: &[u8]) -> Vec<u8> {
    let mut out = Vec::new();
    flate2::read::GzDecoder::new(bytes).read_to_end(&mut out).unwrap();
    out
}

#[test]
fn compressed_snapshot_round_trips() {
    for size in [0usize, 1, 100] {
        let data: Vec<u8> = (0..size * 37).map(|i| (i % 251) as u8).collect();
        let packed = compress_snapshot(&data);
        assert_eq!(&packed[..2], &[0x1f, 0x8b]);
        assert_ne!(packed, data);
        assert_eq!(gunzip(&packed), data);
    }
}

#[test]
fn compression_is_deterministic() {
    let data = b"the same bytes".to_vec();
    assert_eq!(compress_snapshot(&data), compress_snapshot(&data));
}
