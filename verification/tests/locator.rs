use fmt_dispatch::locator::get_file_path;
use fmt_dispatch::locator::Search;
use fmt_dispatch::locator::SearchAction;
use fmt_dispatch::path::FsPath;

fn at(text: &str) -> FsPath {
    let anchor = if text.starts_with('/') { "/" } else { "" };
    let segments = text.split('/').filter(|s| !s.is_empty()).map(|s| s.to_string()).collect();
    FsPath::new(anchor.to_string(), segments)
}

fn names(list: &[&str]) -> Vec<String> {
    list.iter().map(|s| s.to_string()).collect()
}

fn files(list: &[&str]) -> Vec<FsPath> {
    list.iter().map(|s| at(s)).collect()
}

/// Drives a search with "no" for every probe and returns the probes asked.
fn probes_when_nothing_exists(mut search: Search) -> Vec<FsPath> {
    let mut asked = Vec::new();
    loop {
        match search.action() {
            SearchAction::Probe(p) => {
                asked.push(p);
                search = search.step(false);
            }
            SearchAction::Found(p) => panic!("found {:?} though nothing exists", p),
            SearchAction::Absent => return asked,
        }
    }
}

#[test]
fn finds_file_in_starting_directory() {
    let found = get_file_path(
        &at("/home/u/proj"),
        &at("/home/u"),
        &names(&["biome.json"]),
        &files(&["/home/u/proj/biome.json"]),
    );
    assert_eq!(found, Some(at("/home/u/proj/biome.json")));
}

#[test]
fn nearest_file_wins_over_ancestor() {
    let found = get_file_path(
        &at("/home/u/proj/sub"),
        &at("/home/u"),
        &names(&["biome.json"]),
        &files(&["/home/u/biome.json", "/home/u/proj/biome.json", "/home/u/proj/sub/biome.json"]),
    );
    assert_eq!(found, Some(at("/home/u/proj/sub/biome.json")));
}

#[test]
fn finds_file_in_ancestor() {
    let found = get_file_path(
        &at("/home/u/proj/sub"),
        &at("/home/u"),
        &names(&["biome.json"]),
        &files(&["/home/u/proj/biome.json"]),
    );
    assert_eq!(found, Some(at("/home/u/proj/biome.json")));
}

#[test]
fn boundary_directory_is_searched() {
    let found = get_file_path(
        &at("/home/u/proj"),
        &at("/home/u"),
        &names(&["biome.json"]),
        &files(&["/home/u/biome.json"]),
    );
    assert_eq!(found, Some(at("/home/u/biome.json")));
}

#[test]
fn never_looks_above_the_boundary() {
    let found = get_file_path(
        &at("/home/u/proj"),
        &at("/home/u"),
        &names(&["biome.json"]),
        &files(&["/home/biome.json", "/biome.json"]),
    );
    assert_eq!(found, None);
}

#[test]
fn absent_when_no_candidate_exists() {
    let found = get_file_path(
        &at("/home/u/proj"),
        &at("/home/u"),
        &names(&[".prettierrc", ".prettierrc.json"]),
        &files(&["/home/u/proj/package.json", "/home/u/proj/src/.prettierrc"]),
    );
    assert_eq!(found, None);
}

#[test]
fn absent_on_empty_listing() {
    let found =
        get_file_path(&at("/home/u/proj"), &at("/home/u"), &names(&["biome.json"]), &files(&[]));
    assert_eq!(found, None);
}

#[test]
fn earlier_name_wins_within_a_directory() {
    let found = get_file_path(
        &at("/p"),
        &at("/"),
        &names(&[".prettierrc", ".prettierrc.json", ".prettierrc.cjs"]),
        &files(&["/p/.prettierrc.cjs", "/p/.prettierrc.json"]),
    );
    assert_eq!(found, Some(at("/p/.prettierrc.json")));
}

#[test]
fn nearer_directory_wins_over_earlier_name() {
    let found = get_file_path(
        &at("/p/q"),
        &at("/"),
        &names(&[".prettierrc", ".prettierrc.json"]),
        &files(&["/p/.prettierrc", "/p/q/.prettierrc.json"]),
    );
    assert_eq!(found, Some(at("/p/q/.prettierrc.json")));
}

#[test]
fn start_equal_to_boundary_searches_one_directory() {
    let listing = files(&["/home/biome.json"]);
    let wanted = names(&["biome.json"]);
    assert_eq!(get_file_path(&at("/home/u"), &at("/home/u"), &wanted, &listing), None);
    assert_eq!(
        get_file_path(&at("/home"), &at("/home"), &wanted, &listing),
        Some(at("/home/biome.json"))
    );
}

#[test]
fn boundary_beside_the_start_ends_at_the_root() {
    let wanted = names(&["biome.json"]);
    assert_eq!(get_file_path(&at("/srv/app"), &at("/home/u"), &wanted, &files(&[])), None);
    assert_eq!(
        get_file_path(&at("/srv/app"), &at("/home/u"), &wanted, &files(&["/biome.json"])),
        Some(at("/biome.json"))
    );
}

#[test]
fn boundary_below_the_start_ends_at_the_root() {
    let found = get_file_path(
        &at("/home"),
        &at("/home/u"),
        &names(&["biome.json"]),
        &files(&["/home/u/biome.json"]),
    );
    assert_eq!(found, None);
}

#[test]
fn relative_start_ends_at_the_empty_path() {
    let wanted = names(&["biome.json"]);
    assert_eq!(
        get_file_path(&at("a/b"), &at("/home"), &wanted, &files(&["biome.json"])),
        Some(at("biome.json"))
    );
    assert_eq!(get_file_path(&at("a/b"), &at("/home"), &wanted, &files(&["/biome.json"])), None);
}

#[test]
fn no_names_finds_nothing() {
    let found =
        get_file_path(&at("/a/b"), &at("/"), &names(&[]), &files(&["/a/b", "/a", "/a/b/x"]));
    assert_eq!(found, None);
}

#[test]
fn search_probes_every_name_in_every_directory_up_to_the_boundary() {
    let search = Search::new(at("/home/u/proj"), at("/home"), names(&["a", "b"]));
    assert_eq!(
        probes_when_nothing_exists(search),
        files(&[
            "/home/u/proj/a",
            "/home/u/proj/b",
            "/home/u/a",
            "/home/u/b",
            "/home/a",
            "/home/b",
        ])
    );
}

#[test]
fn search_without_names_asks_nothing() {
    let search = Search::new(at("/home/u"), at("/"), names(&[]));
    assert_eq!(search.action(), SearchAction::Absent);
    assert!(search.is_absent());
}

#[test]
fn search_stops_at_the_first_yes() {
    let mut search = Search::new(at("/p/q"), at("/"), names(&["a", "b"]));
    assert_eq!(search.action(), SearchAction::Probe(at("/p/q/a")));
    search = search.step(false);
    assert_eq!(search.action(), SearchAction::Probe(at("/p/q/b")));
    search = search.step(false);
    assert_eq!(search.action(), SearchAction::Probe(at("/p/a")));
    assert!(!search.is_absent());
    search = search.step(true);
    assert_eq!(search.action(), SearchAction::Found(at("/p/a")));
    assert!(!search.is_absent());
}

#[test]
fn finished_search_ignores_further_answers() {
    let mut found = Search::new(at("/p"), at("/p"), names(&["a"])).step(true);
    found = found.step(false);
    assert_eq!(found.action(), SearchAction::Found(at("/p/a")));
    let mut absent = Search::new(at("/p"), at("/p"), names(&["a"])).step(false);
    assert_eq!(absent.action(), SearchAction::Absent);
    absent = absent.step(true);
    assert_eq!(absent.action(), SearchAction::Absent);
    assert!(absent.is_absent());
}

#[test]
fn search_agrees_with_get_file_path() {
    let listing = files(&["/home/u/.prettierrc.js", "/home/.prettierrc"]);
    let wanted = names(&[".prettierrc", ".prettierrc.js"]);
    let mut search = Search::new(at("/home/u/p"), at("/home"), wanted.clone());
    let by_steps = loop {
        match search.action() {
            SearchAction::Probe(p) => {
                let exists = listing.contains(&p);
                search = search.step(exists);
            }
            SearchAction::Found(p) => break Some(p),
            SearchAction::Absent => break None,
        }
    };
    assert_eq!(by_steps, Some(at("/home/u/.prettierrc.js")));
    assert_eq!(get_file_path(&at("/home/u/p"), &at("/home"), &wanted, &listing), by_steps);
}
