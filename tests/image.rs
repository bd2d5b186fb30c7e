use std::io::{Cursor, Write};

use dir2img::estimate::Filesystem;
use dir2img::tree::{walk, Entry};

type Disk = Cursor<Vec<u8>>;

fn file(name: &str, len: u64) -> Entry {
    Entry::File { name: name.as_bytes().to_vec(), len, is_symlink: false }
}

fn dir(name: &str) -> Entry {
    Entry::Dir { name: name.as_bytes().to_vec() }
}

fn text(name: &[u8]) -> String {
    String::from_utf8(name.to_vec()).unwrap()
}

/// Formats a volume of `size` bytes and copies the visited items into it,
/// as the copy pass does; returns the volume, or the first error.
fn build(scan: &Vec<Entry>, follow_symlinks: bool, size: u64) -> std::io::Result<Vec<u8>> {
    let mut disk: Disk = Cursor::new(vec![0u8; size as usize]);
    fatfs::format_volume(&mut disk, fatfs::FormatVolumeOptions::new().bytes_per_cluster(512))?;
    disk.set_position(0);
    {
        let fs = fatfs::FileSystem::new(&mut disk, fatfs::FsOptions::new())?;
        let mut dirs = vec![fs.root_dir()];
        for e in walk(scan, follow_symlinks).iter() {
            match e {
                Entry::Dir { name } => {
                    let d = dirs.last().unwrap().create_dir(&text(name))?;
                    dirs.push(d);
                }
                Entry::File { name, len, .. } => {
                    let mut f = dirs.last().unwrap().create_file(&text(name))?;
                    f.write_all(&vec![7u8; *len as usize])?;
                }
                Entry::Close => {
                    dirs.pop();
                }
            }
        }
    }
    Ok(disk.into_inner())
}

/// Lists a directory of a volume recursively: `path len` for files, `path/` for directories.
fn listing(image: Vec<u8>) -> Vec<String> {
    let mut disk: Disk = Cursor::new(image);
    let fs = fatfs::FileSystem::new(&mut disk, fatfs::FsOptions::new()).unwrap();
    let mut out = Vec::new();
    let mut todo = vec![(String::new(), fs.root_dir())];
    while let Some((prefix, d)) = todo.pop() {
        for e in d.iter() {
            let e = e.unwrap();
            let name = e.file_name();
            if name == "." || name == ".." {
                continue;
            }
            let path = format!("{}{}", prefix, name);
            if e.is_dir() {
                out.push(format!("{}/", path));
                todo.push((format!("{}/", path), e.to_dir()));
            } else {
                out.push(format!("{} {}", path, e.len()));
            }
        }
    }
    out.sort();
    out
}

fn source_listing(scan: &Vec<Entry>, follow_symlinks: bool) -> Vec<String> {
    let mut out = Vec::new();
    let mut prefix: Vec<String> = Vec::new();
    for e in walk(scan, follow_symlinks).iter() {
        match e {
            Entry::Dir { name } => {
                prefix.push(text(name));
                out.push(format!("{}/", prefix.join("/")));
            }
            Entry::File { name, len, .. } => {
                let mut p = prefix.clone();
                p.push(text(name));
                out.push(format!("{} {}", p.join("/"), len));
            }
            Entry::Close => {
                prefix.pop();
            }
        }
    }
    out.sort();
    out
}

fn example_tree() -> Vec<Entry> {
    vec![file("a.txt", 100), dir("sub"), file("b.txt", 5000), Entry::Close]
}

fn wide_tree() -> Vec<Entry> {
    let mut scan = Vec::new();
    for d in 0..6 {
        scan.push(dir(&format!("directory number {} with a long name", d)));
        for f in 0..12 {
            scan.push(file(&format!("file {} of directory {} - long name.bin", f, d), (f * 1000 + d) as u64));
        }
        scan.push(dir("nested"));
        scan.push(file("x", 513));
        scan.push(Entry::Close);
        scan.push(Entry::Close);
    }
    for f in 0..40 {
        scan.push(file(&format!("root file {}.txt", f), 0));
    }
    scan.push(file("large.bin", 300000));
    scan
}

fn check_sufficient(scan: &Vec<Entry>) {
    let size = Filesystem::Vfat.estimate_size(scan, false).unwrap();
    let image = build(scan, false, size).unwrap();
    assert_eq!(image.len() as u64, size);
    assert_eq!(listing(image), source_listing(scan, false));
}

#[test]
fn example_scenario_builds_and_mirrors() {
    let scan = example_tree();
    let size = Filesystem::Vfat.estimate_size(&scan, false).unwrap();
    assert!(size >= 5100);
    let image = build(&scan, false, size).unwrap();
    assert_eq!(listing(image), vec!["a.txt 100", "sub/", "sub/b.txt 5000"]);
}

#[test]
fn estimate_is_sufficient_for_a_wide_tree() {
    check_sufficient(&wide_tree());
}

#[test]
fn estimate_is_sufficient_for_an_empty_tree() {
    check_sufficient(&vec![]);
}

#[test]
fn estimate_is_sufficient_for_deep_nesting() {
    let mut scan = Vec::new();
    for d in 0..20 {
        scan.push(dir(&format!("level{}", d)));
        scan.push(file("data.bin", 700));
    }
    for _ in 0..20 {
        scan.push(Entry::Close);
    }
    check_sufficient(&scan);
}

#[test]
fn symlinked_file_follows_policy_in_image() {
    let scan = vec![
        file("a.txt", 10),
        Entry::File { name: b"link.txt".to_vec(), len: 2000, is_symlink: true },
    ];
    let skip = Filesystem::Vfat.estimate_size(&scan, false).unwrap();
    assert_eq!(listing(build(&scan, false, skip).unwrap()), vec!["a.txt 10"]);
    let follow = Filesystem::Vfat.estimate_size(&scan, true).unwrap();
    assert_eq!(listing(build(&scan, true, follow).unwrap()), vec!["a.txt 10", "link.txt 2000"]);
}
