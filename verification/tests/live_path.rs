use image_converter::path::get_unique_output_path;
use std::path::Path;

/// What the search must give, found by asking the file system directly.
fn expected(directory: &str, stem: &str, extension: Option<&str>) -> String {
    let name = |counter: &str| match extension {
        Some(ext) => format!("{}{}{}.{}", directory, stem, counter, ext),
        None => format!("{}{}{}", directory, stem, counter),
    };
    let desired = name("");
    if !Path::new(&desired).exists() {
        return desired;
    }
    let mut k: u64 = 1;
    loop {
        let candidate = name(&k.to_string());
        if !Path::new(&candidate).exists() {
            return candidate;
        }
        k += 1;
    }
}

#[test]
fn path_where_nothing_exists_is_returned_unchanged() {
    let desired = "/no-such-directory-for-image-converter/foo.png";
    assert!(!Path::new(desired).exists());
    assert_eq!(get_unique_output_path(desired), desired);
    assert_eq!(get_unique_output_path(""), "");
}

#[test]
fn existing_file_without_extension_gets_a_counter() {
    assert!(Path::new("/dev/null").exists());
    let result = get_unique_output_path("/dev/null");
    assert_eq!(result, expected("/dev/", "null", None));
    assert_ne!(result, "/dev/null");
    assert!(result.starts_with("/dev/null"));
    assert!(!Path::new(&result).exists());
}

#[test]
fn existing_directory_counts_as_taken() {
    assert!(Path::new("/dev").exists());
    let result = get_unique_output_path("/dev");
    assert_eq!(result, expected("/", "dev", None));
    assert_ne!(result, "/dev");
    assert!(!Path::new(&result).exists());
}

#[test]
fn search_agrees_with_the_file_system_on_well_known_paths() {
    let cases: [(&str, &str, Option<&str>); 8] = [
        ("/dev/", "tty", None),
        ("/dev/", "null", None),
        ("/etc/", "hosts", None),
        ("/etc/", "passwd", None),
        ("/etc/", "resolv", Some("conf")),
        ("/etc/", "ld.so", Some("cache")),
        ("/proc/", "version", None),
        ("/usr/bin/", "env", None),
    ];
    for (directory, stem, extension) in cases {
        let desired = match extension {
            Some(ext) => format!("{}{}.{}", directory, stem, ext),
            None => format!("{}{}", directory, stem),
        };
        let result = get_unique_output_path(&desired);
        assert_eq!(result, expected(directory, stem, extension));
        assert!(!Path::new(&result).exists());
    }
}

#[test]
fn root_has_no_file_name_and_takes_the_fallback_stem() {
    assert!(Path::new("/").exists());
    let mut k: u64 = 1;
    while Path::new(&format!("arquivo{}", k)).exists() {
        k += 1;
    }
    let result = get_unique_output_path("/");
    assert_eq!(result, format!("arquivo{}", k));
    assert!(!Path::new(&result).exists());
}

#[test]
fn looking_for_a_path_creates_nothing() {
    let first = get_unique_output_path("/dev/null");
    assert!(!Path::new(&first).exists());
    let second = get_unique_output_path("/dev/null");
    assert_eq!(first, second);
    assert!(!Path::new(&second).exists());
}
