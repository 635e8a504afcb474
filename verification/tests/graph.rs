use turbopack_support::graph::{RacePoll, _race_pop, _visit};
use turbopack_support::node_assets::{AssetSeparation, MappableAsset, internal_assets_for_source_mapping};

#[test]
fn visit_sees_each_node_once() {
    // 1 -> 2, 3; 2 -> 3, 1; 3 -> 4; 4 -> (none)
    let edges = |n: u64| -> Vec<u64> {
        match n {
            1 => vec![2, 3],
            2 => vec![3, 1],
            3 => vec![4],
            _ => vec![],
        }
    };
    let mut visit = _visit(1);
    let mut visited = Vec::new();
    while let Some(n) = visit.next() {
        visited.push(n);
        visit.add_references(n, edges(n));
    }
    assert!(visit.is_done());
    assert_eq!(visited, vec![1, 3, 4, 2]);
    assert_eq!(visit.seen(), &vec![1, 2, 3, 4]);
}

#[test]
fn race_pop_takes_first_ready() {
    let mut futures = vec!['a', 'b', 'c', 'd'];
    let mut outcomes = vec![None, Some(20), Some(30), None];
    assert!(matches!(_race_pop(&mut futures, &mut outcomes), RacePoll::Done(Some(20))));
    assert_eq!(futures, vec!['a', 'd', 'c']);
    let mut outcomes: Vec<Option<u8>> = vec![None, None, None];
    assert!(matches!(_race_pop(&mut futures, &mut outcomes), RacePoll::Pending));
    let mut empty: Vec<char> = vec![];
    let mut none: Vec<Option<u8>> = vec![];
    assert!(matches!(_race_pop(&mut empty, &mut none), RacePoll::Done(None)));
}

#[test]
fn assets_split_into_internal_and_external() {
    // entry 1 references 2 (inside) and 9 (outside); 2 references 3 (inside), 9 and 8 (outside)
    let refs = |n: u64| -> Vec<(u64, bool)> {
        match n {
            1 => vec![(2, true), (9, false)],
            2 => vec![(3, true), (9, false), (8, false), (1, true)],
            _ => vec![],
        }
    };
    let mut separation = AssetSeparation::new(1);
    while let Some(n) = separation.next_internal() {
        separation.add_references(n, refs(n));
    }
    assert!(separation.is_done());
    assert_eq!(separation.internal_assets(), &vec![1, 2, 3]);
    assert_eq!(separation.external_asset_entrypoints(), &vec![9, 8]);
}

#[test]
fn source_mapping_keeps_last_asset_per_path() {
    let assets = vec![
        MappableAsset { asset: 1, generates_source_map: true, relative_path: Some("a.js".to_string()) },
        MappableAsset { asset: 2, generates_source_map: false, relative_path: Some("b.js".to_string()) },
        MappableAsset { asset: 3, generates_source_map: true, relative_path: None },
        MappableAsset { asset: 4, generates_source_map: true, relative_path: Some("a.js".to_string()) },
        MappableAsset { asset: 5, generates_source_map: true, relative_path: Some("c.js".to_string()) },
    ];
    assert_eq!(
        internal_assets_for_source_mapping(assets),
        vec![("a.js".to_string(), 4), ("c.js".to_string(), 5)]
    );
}
