//! Finding projects by the names of session directories.
use std::collections::HashMap;
use wake::adapters::claude_decode::{decode_project_dir, encode, DecodeAsk, DirEntry};

/// A disk in memory: the directories that exist, each with its entries in the order of the listing.
struct Disk {
    dirs: HashMap<String, Vec<(String, bool)>>,
}

impl Disk {
    fn new() -> Disk {
        let mut dirs = HashMap::new();
        dirs.insert("/".to_string(), Vec::new());
        Disk { dirs }
    }

    fn child(dir: &str, name: &str) -> String {
        if dir == "/" {
            format!("/{name}")
        } else {
            format!("{dir}/{name}")
        }
    }

    fn make_dirs(&mut self, path: &str) {
        let mut dir = "/".to_string();
        for name in path.split('/').filter(|n| !n.is_empty()) {
            let next = Disk::child(&dir, name);
            if !self.dirs.contains_key(&next) {
                self.dirs.get_mut(&dir).unwrap().push((name.to_string(), true));
                self.dirs.insert(next.clone(), Vec::new());
            }
            dir = next;
        }
    }

    fn make_file(&mut self, dir: &str, name: &str) {
        self.dirs.get_mut(dir).unwrap().push((name.to_string(), false));
    }

    fn list(&self, dir: &str) -> Option<Vec<DirEntry>> {
        self.dirs.get(dir).map(|entries| {
            entries
                .iter()
                .map(|(name, is_dir)| DirEntry {
                    name: name.clone(),
                    path: Disk::child(dir, name),
                    is_dir: *is_dir,
                })
                .collect()
        })
    }

    /// Runs a search to its end; also tells which directories were listed.
    fn decode(&self, name: &str) -> (Option<String>, Vec<String>) {
        let mut search = decode_project_dir(name);
        let mut asked = Vec::new();
        loop {
            match search.ask() {
                DecodeAsk::Found(path) => return (Some(path), asked),
                DecodeAsk::NotFound => return (None, asked),
                DecodeAsk::List(dir) => {
                    asked.push(dir.clone());
                    search.listed(self.list(&dir));
                }
            }
        }
    }
}

#[test]
fn project_dir_name_decodes_against_the_filesystem() {
    let mut disk = Disk::new();
    let project = "/tmp/base/.agent/work trees/my-app_v2";
    disk.make_dirs(project);
    disk.make_dirs("/tmp/base/.agent/work");
    let encoded = encode(project);
    assert!(encoded.starts_with('-'), "{encoded}");
    assert_eq!(encoded, "-tmp-base--agent-work-trees-my-app-v2");
    assert_eq!(disk.decode(&encoded).0.as_deref(), Some(project));
    assert_eq!(disk.decode(&format!("{encoded}-nope")).0, None);
    assert_eq!(disk.decode("Users-x").0, None);
}

#[test]
fn every_character_but_letters_and_digits_is_replaced() {
    assert_eq!(encode("aZ09._ -/é漢"), "aZ09-------");
    assert_eq!(encode(""), "");
}

#[test]
fn the_longest_name_is_tried_first_and_given_up_if_it_leads_nowhere() {
    let mut disk = Disk::new();
    disk.make_dirs("/a/b/c");
    disk.make_dirs("/a-b");
    let (found, asked) = disk.decode("-a-b-c");
    assert_eq!(found.as_deref(), Some("/a/b/c"));
    assert_eq!(asked, vec!["/", "/a-b", "/a", "/a/b"]);
    disk.make_dirs("/a-b/c");
    assert_eq!(disk.decode("-a-b-c").0.as_deref(), Some("/a-b/c"));
}

#[test]
fn a_name_must_end_where_a_component_ends() {
    let mut disk = Disk::new();
    disk.make_dirs("/ab");
    assert_eq!(disk.decode("-abc").0, None);
    assert_eq!(disk.decode("-ab").0.as_deref(), Some("/ab"));
    assert_eq!(disk.decode("-ab-").0.as_deref(), Some("/ab"));
    assert_eq!(disk.decode("-ab--").0, None);
}

#[test]
fn files_and_unreadable_directories_lead_nowhere() {
    let mut disk = Disk::new();
    disk.make_file("/", "note");
    assert_eq!(disk.decode("-note").0, None);
    disk.make_dirs("/gone/x");
    disk.dirs.remove("/gone");
    assert_eq!(disk.decode("-gone-x").0, None);
    assert_eq!(disk.decode("-gone").0.as_deref(), Some("/gone"));
}

#[test]
fn bare_names_are_no_paths() {
    let disk = Disk::new();
    assert_eq!(disk.decode("").0, None);
    assert_eq!(disk.decode("-").0, None);
    assert_eq!(disk.decode("C--Users").0, None);
}

#[test]
fn names_that_encode_alike_are_tried_in_the_order_of_the_listing() {
    let mut disk = Disk::new();
    disk.make_dirs("/a_b");
    disk.make_dirs("/a.b");
    assert_eq!(disk.decode("-a-b").0.as_deref(), Some("/a_b"));
}
