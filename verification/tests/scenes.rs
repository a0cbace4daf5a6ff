use debugproxy::scenes::{is_scene_name, scene_list, shuffle_by_draws, shuffled_scenes};

#[test]
fn scene_selection() {
    assert_eq!(scene_list("all"), vec!["starfield", "rain", "particles"]);
    assert_eq!(scene_list("  "), vec!["starfield", "rain", "particles"]);
    assert_eq!(scene_list(" ALL "), vec!["starfield", "rain", "particles"]);
    assert_eq!(scene_list("Rain, particles"), vec!["rain", "particles"]);
    assert_eq!(scene_list("rain,,nope, rain"), vec!["rain", "rain"]);
    assert_eq!(scene_list("nope"), vec!["starfield", "rain", "particles"]);
    assert!(is_scene_name("rain"));
    assert!(!is_scene_name("Rain"));
}

#[test]
fn shuffle_by_draws_swaps_from_the_last_position_down() {
    let names = vec!["a".to_string(), "b".to_string(), "c".to_string()];
    assert_eq!(shuffle_by_draws(names.clone(), &vec![0, 0, 1]), vec!["c", "a", "b"]);
    assert_eq!(shuffle_by_draws(names.clone(), &vec![0, 1, 2]), vec!["a", "b", "c"]);
    assert_eq!(shuffle_by_draws(Vec::new(), &Vec::new()), Vec::<String>::new());
}

#[test]
fn shuffled_scenes_keeps_every_scene() {
    let mut r = shuffled_scenes(scene_list("all"));
    r.sort();
    assert_eq!(r, vec!["particles", "rain", "starfield"]);
}
