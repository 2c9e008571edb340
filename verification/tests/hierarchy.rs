use muse::scene::Scene;

fn scene_from(text: &str) -> Scene {
    let mut s = Scene::new();
    assert_eq!(s.load_scene_text(text), Some(Ok(())));
    s
}

fn node(id: u64, parent: Option<u64>) -> String {
    let p = match parent {
        Some(p) => p.to_string(),
        None => "null".to_string(),
    };
    format!(
        r#"{{"entity_id": {id}, "transform": {{"position": [0, 0, 0], "rotation": [0, 0, 0], "scale": [1, 1, 1], "parent_id": {p}}}}}"#
    )
}

#[test]
fn chain_follows_parents_to_the_root() {
    let text = format!(r#"{{"entities": [{}, {}, {}]}}"#, node(0, None), node(1, Some(0)), node(2, Some(1)));
    let s = scene_from(&text);
    assert_eq!(s.ancestor_chain(2), Some(vec![2, 1, 0]));
    assert_eq!(s.ancestor_chain(0), Some(vec![0]));
}

#[test]
fn chain_stops_at_a_parent_without_transform() {
    let text = format!(r#"{{"entities": [{}]}}"#, node(3, Some(9)));
    let s = scene_from(&text);
    assert_eq!(s.ancestor_chain(3), Some(vec![3]));
    assert_eq!(s.ancestor_chain(9), Some(vec![]));
}

#[test]
fn chain_of_a_cycle_is_none() {
    let text = format!(r#"{{"entities": [{}, {}, {}]}}"#, node(0, Some(2)), node(1, Some(0)), node(2, Some(1)));
    let s = scene_from(&text);
    assert_eq!(s.ancestor_chain(1), None);
    let own = format!(r#"{{"entities": [{}]}}"#, node(5, Some(5)));
    assert_eq!(scene_from(&own).ancestor_chain(5), None);
}
