use icarus::{get_path_from_artifact, MavenError};

fn path(artifact: &str) -> String {
    get_path_from_artifact(artifact).expect("coordinate should resolve")
}

#[test]
fn three_segments_default_to_jar() {
    assert_eq!(path("org.example:lib:1.0"), "org/example/lib/1.0/lib-1.0.jar");
}

#[test]
fn three_segments_with_extension() {
    assert_eq!(path("org.example:lib:1.0@zip"), "org/example/lib/1.0/lib-1.0.zip");
}

#[test]
fn four_segments_add_classifier() {
    assert_eq!(
        path("org.example:lib:1.0:sources"),
        "org/example/lib/1.0/lib-1.0-sources.jar"
    );
}

#[test]
fn four_segments_with_extension() {
    assert_eq!(
        path("net.fabricmc:intermediary:1.20.1:v2@tiny"),
        "net/fabricmc/intermediary/1.20.1/intermediary-1.20.1-v2.tiny"
    );
}

#[test]
fn classifier_keeps_further_colons() {
    assert_eq!(path("g:n:v:c:d"), "g/n/v/n-v-c:d.jar");
}

#[test]
fn only_the_last_at_sign_starts_the_extension() {
    assert_eq!(path("g:n:v@x@zip"), "g/n/v@x/n-v@x.zip");
}

#[test]
fn dots_only_replaced_in_group() {
    assert_eq!(
        path("com.mojang.blaze3d:render.lib:1.2.3"),
        "com/mojang/blaze3d/render.lib/1.2.3/render.lib-1.2.3.jar"
    );
}

#[test]
fn empty_extension_after_at_sign() {
    assert_eq!(path("a:b:c@"), "a/b/c/b-c.");
}

#[test]
fn bad_coordinate_lacks_name() {
    match get_path_from_artifact("badcoordinate") {
        Err(MavenError::Name(a)) => assert_eq!(a, "badcoordinate"),
        other => panic!("unexpected result {:?}", other),
    }
}

#[test]
fn empty_coordinate_lacks_name() {
    match get_path_from_artifact("") {
        Err(MavenError::Name(a)) => assert_eq!(a, ""),
        other => panic!("unexpected result {:?}", other),
    }
}

#[test]
fn two_segments_lack_version() {
    match get_path_from_artifact("org.example:lib") {
        Err(MavenError::Version(a)) => assert_eq!(a, "org.example:lib"),
        other => panic!("unexpected result {:?}", other),
    }
}

#[test]
fn error_names_whole_coordinate() {
    match get_path_from_artifact("org.example:lib@zip") {
        Err(MavenError::Version(a)) => assert_eq!(a, "org.example:lib@zip"),
        other => panic!("unexpected result {:?}", other),
    }
}

#[test]
fn resolving_is_repeatable() {
    let a = get_path_from_artifact("org.example:lib:1.0").unwrap();
    let b = get_path_from_artifact("org.example:lib:1.0").unwrap();
    assert_eq!(a, b);
}
