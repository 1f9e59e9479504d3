use remendo::gerrit::anchor::{CommentAnchor, commit_msg_line};
use remendo::gerrit::base_url;
use remendo::gerrit::base_url::host_of;

#[test]
fn a_normal_path_is_a_file() {
    assert_eq!(
        CommentAnchor::classify("src/gerrit/mod.rs"),
        CommentAnchor::File("src/gerrit/mod.rs".into())
    );
}

#[test]
fn the_two_pseudo_paths_are_classified_as_such() {
    assert_eq!(CommentAnchor::classify("/COMMIT_MSG"), CommentAnchor::CommitMessage);
    assert_eq!(CommentAnchor::classify("/PATCHSET_LEVEL"), CommentAnchor::ChangeLevel);
}

#[test]
fn no_on_disk_path_comes_out_of_a_pseudo_path() {
    for path in ["/COMMIT_MSG", "/PATCHSET_LEVEL"] {
        let anchor = CommentAnchor::classify(path);
        assert_eq!(anchor.file_path(), None, "{path} yielded a path");
        assert!(!anchor.is_editable_file(), "{path} looked editable");
    }
}

#[test]
fn a_file_whose_name_merely_resembles_a_pseudo_path_is_still_a_file() {
    assert!(CommentAnchor::classify("COMMIT_MSG").is_editable_file());
    assert!(CommentAnchor::classify("docs/COMMIT_MSG.md").is_editable_file());
}

#[test]
fn classification_round_trips_through_the_gerrit_path() {
    for path in ["src/a.rs", "/COMMIT_MSG", "/PATCHSET_LEVEL"] {
        assert_eq!(CommentAnchor::classify(path).gerrit_path(), path);
    }
}

#[test]
fn a_postable_path_is_not_an_openable_path() {
    let anchor = CommentAnchor::ChangeLevel;
    assert_eq!(anchor.gerrit_path(), "/PATCHSET_LEVEL");
    assert_eq!(anchor.file_path(), None);
}

#[test]
fn commit_message_lines_shift_past_gerrits_header() {
    assert_eq!(commit_msg_line(7), Some(1));
    assert_eq!(commit_msg_line(8), Some(2));
    assert_eq!(commit_msg_line(20), Some(14));
}

#[test]
fn lines_inside_the_header_map_to_nothing() {
    for rendered in 1..=6 {
        assert_eq!(commit_msg_line(rendered), None, "line {rendered}");
    }
    assert_eq!(commit_msg_line(0), None);
}

#[test]
fn the_common_http_form_yields_the_host() {
    assert_eq!(base_url::derive("https://gerrit.corp/a/proj").unwrap(), "https://gerrit.corp/");
}

#[test]
fn an_http_remote_without_the_auth_segment_still_yields_the_host() {
    assert_eq!(base_url::derive("https://gerrit.corp/proj/sub").unwrap(), "https://gerrit.corp/");
}

#[test]
fn ssh_remotes_move_to_https_and_drop_the_gerrit_port() {
    assert_eq!(base_url::derive("ssh://me@gerrit.corp:29418/proj").unwrap(), "https://gerrit.corp/");
    assert_eq!(base_url::derive("ssh://gerrit.corp:29418/proj/nested").unwrap(), "https://gerrit.corp/");
}

#[test]
fn a_subpath_hosted_gerrit_is_recovered_via_the_auth_segment() {
    assert_eq!(base_url::derive("https://corp.com/gerrit/a/proj").unwrap(), "https://corp.com/gerrit/");
    assert_eq!(base_url::derive("https://corp.com/deep/nest/a/proj").unwrap(), "https://corp.com/deep/nest/");
}

#[test]
fn a_subpath_without_the_auth_segment_is_ambiguous() {
    assert_eq!(
        base_url::derive("https://corp.com/gerrit/proj").unwrap(),
        "https://corp.com/",
        "cannot tell a subpath from a project prefix"
    );
}

#[test]
fn a_user_prefix_is_not_mistaken_for_the_host() {
    assert_eq!(base_url::derive("https://guilherme@gerrit.corp/a/proj").unwrap(), "https://gerrit.corp/");
}

#[test]
fn a_non_gerrit_port_is_preserved() {
    assert_eq!(base_url::derive("https://gerrit.corp:8443/a/proj").unwrap(), "https://gerrit.corp:8443/");
}

#[test]
fn a_remote_with_no_path_still_derives() {
    assert_eq!(base_url::derive("https://gerrit.corp").unwrap(), "https://gerrit.corp/");
}

#[test]
fn an_unparseable_remote_yields_nothing() {
    assert_eq!(base_url::derive("git@gerrit.corp:proj.git"), None);
    assert_eq!(base_url::derive(""), None);
    assert_eq!(base_url::derive("https://"), None);
}

#[test]
fn host_is_extracted_from_a_derived_base() {
    assert_eq!(host_of("https://gerrit.corp/").unwrap(), "gerrit.corp");
    assert_eq!(host_of("https://corp.com/gerrit/").unwrap(), "corp.com");
    assert_eq!(host_of("https://gerrit.corp:8443/").unwrap(), "gerrit.corp:8443");
    assert_eq!(host_of("nonsense"), None);
}

#[test]
fn derivation_round_trips_into_host_lookup() {
    let base = base_url::derive("ssh://me@gerrit.corp:29418/proj").unwrap();
    assert_eq!(host_of(&base).unwrap(), "gerrit.corp");
}

#[test]
fn a_derived_base_always_ends_in_one_slash() {
    for remote in ["https://gerrit.corp", "https://corp.com/x/a/p", "ssh://h:29418/p"] {
        let base = base_url::derive(remote).unwrap();
        assert!(base.starts_with("https://") && base.ends_with('/') && !base.ends_with("//"), "{base}");
    }
}

#[test]
fn the_project_is_what_follows_the_auth_segment() {
    assert_eq!(base_url::project_of("https://gerrit.corp/a/platform/base").unwrap(), "platform/base");
    assert_eq!(base_url::project_of("https://corp.com/gerrit/a/proj").unwrap(), "proj");
}

#[test]
fn an_ssh_remote_names_its_project_by_path() {
    assert_eq!(base_url::project_of("ssh://me@gerrit.corp:29418/platform/base").unwrap(), "platform/base");
    assert_eq!(base_url::project_of("ssh://gerrit.corp:29418/proj.git").unwrap(), "proj");
    assert_eq!(base_url::project_of("https://gerrit.corp/a/proj/").unwrap(), "proj");
}

#[test]
fn a_remote_without_a_scheme_or_a_path_names_no_project() {
    assert_eq!(base_url::project_of("git@gerrit.corp:proj.git"), None);
    assert_eq!(base_url::project_of("https://gerrit.corp"), None);
    assert_eq!(base_url::project_of("https://gerrit.corp/"), None);
}
