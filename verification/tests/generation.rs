use csv2sh::errors::GenerationError;
use csv2sh::generate::csv2sh;

#[test]
fn csv2sh_test() {
    let command_csv = r#"COMMAND,ARG1,ARG2,ARG3,ARG4
commit,2014/02/03 03:40:00,taro,../input/1,test
commit,2014/12/03 15:32:00,taro,../input/2,test2
tag,,,,docs/ios/1.0.0
commit,2015/01/12 23:59:59,hanako,../input/3,Update files
"#;
    let users_csv = r#"ID,NAME,EMAIL
taro,OSAKA Taro,taro@example.com
hanako,Tokyo Hanako,hanako@example.org
"#;
    let expect = r#"mkdir out
pushd out
git init
find . -not -path './.git*' -not -path '.' -print0 | xargs -0 rm -rf
cp -r ../input/1/. .
git add -A
GIT_COMMITTER_NAME="OSAKA Taro" GIT_COMMITTER_EMAIL="taro@example.com" GIT_COMMITTER_DATE="2014-02-03T03:40:00" GIT_AUTHOR_NAME="OSAKA Taro" GIT_AUTHOR_EMAIL="taro@example.com" GIT_AUTHOR_DATE="2014-02-03T03:40:00" git commit -m "test"
find . -not -path './.git*' -not -path '.' -print0 | xargs -0 rm -rf
cp -r ../input/2/. .
git add -A
GIT_COMMITTER_NAME="OSAKA Taro" GIT_COMMITTER_EMAIL="taro@example.com" GIT_COMMITTER_DATE="2014-12-03T15:32:00" GIT_AUTHOR_NAME="OSAKA Taro" GIT_AUTHOR_EMAIL="taro@example.com" GIT_AUTHOR_DATE="2014-12-03T15:32:00" git commit -m "test2"
git tag docs/ios/1.0.0
find . -not -path './.git*' -not -path '.' -print0 | xargs -0 rm -rf
cp -r ../input/3/. .
git add -A
GIT_COMMITTER_NAME="Tokyo Hanako" GIT_COMMITTER_EMAIL="hanako@example.org" GIT_COMMITTER_DATE="2015-01-12T23:59:59" GIT_AUTHOR_NAME="Tokyo Hanako" GIT_AUTHOR_EMAIL="hanako@example.org" GIT_AUTHOR_DATE="2015-01-12T23:59:59" git commit -m "Update files"
popd
"#;
    let result = csv2sh(&command_csv, &users_csv, false).unwrap();
    assert_eq!(result, expect);
}

#[test]
fn two_table_scenario() {
    let users = "ID,NAME,EMAIL\ntaro,OSAKA Taro,taro@example.com\n";
    let commands =
        "COMMAND,ARG1,ARG2,ARG3,ARG4\ncommit,2014/02/03 03:40:00,taro,../input/1,test\ntag,,,,docs/ios/1.0.0\n";
    let expect = "mkdir out\npushd out\ngit init\nfind . -not -path './.git*' -not -path '.' -print0 | xargs -0 rm -rf\ncp -r ../input/1/. .\ngit add -A\nGIT_COMMITTER_NAME=\"OSAKA Taro\" GIT_COMMITTER_EMAIL=\"taro@example.com\" GIT_COMMITTER_DATE=\"2014-02-03T03:40:00\" GIT_AUTHOR_NAME=\"OSAKA Taro\" GIT_AUTHOR_EMAIL=\"taro@example.com\" GIT_AUTHOR_DATE=\"2014-02-03T03:40:00\" git commit -m \"test\"\ngit tag docs/ios/1.0.0\npopd\n";
    assert_eq!(csv2sh(commands, users, false).unwrap(), expect);
}

#[test]
fn directory_exists_aborts_with_no_output() {
    let users = "ID,NAME,EMAIL\ntaro,OSAKA Taro,taro@example.com\n";
    let commands = "COMMAND,ARG1,ARG2,ARG3,ARG4\ntag,,,,v1\n";
    let r = csv2sh(commands, users, true);
    assert_eq!(r, Err(GenerationError::PreconditionFailed));
}

#[test]
fn unknown_command_anywhere_aborts_with_no_output() {
    let users = "ID,NAME,EMAIL\ntaro,OSAKA Taro,taro@example.com\n";
    let commands = "COMMAND,ARG1,ARG2,ARG3,ARG4\ncommit,2014/02/03 03:40:00,taro,../input/1,test\nbogus,,,,x\n";
    let r = csv2sh(commands, users, false);
    assert!(r.is_err());
    assert_eq!(
        r,
        Err(GenerationError::UnknownCommand { row: 2, kind: "bogus".to_string() })
    );
}

#[test]
fn empty_kind_is_unknown_command() {
    let users = "ID,NAME,EMAIL\n";
    let commands = "COMMAND,ARG1,ARG2,ARG3,ARG4\n,,,,x\n";
    assert_eq!(
        csv2sh(commands, users, false),
        Err(GenerationError::UnknownCommand { row: 1, kind: String::new() })
    );
}

#[test]
fn missing_user_in_last_row_aborts() {
    let users = "ID,NAME,EMAIL\ntaro,OSAKA Taro,taro@example.com\n";
    let commands = "COMMAND,ARG1,ARG2,ARG3,ARG4\ncommit,2014/02/03 03:40:00,taro,../input/1,test\ntag,,,,v1\ncommit,2015/01/12 23:59:59,hanako,../input/3,late\n";
    let r = csv2sh(commands, users, false);
    assert_eq!(
        r,
        Err(GenerationError::UnknownUser { row: 3, key: "hanako".to_string() })
    );
}

#[test]
fn rerunning_generation_is_byte_identical() {
    let users = "ID,NAME,EMAIL\ntaro,OSAKA Taro,taro@example.com\n";
    let commands = "COMMAND,ARG1,ARG2,ARG3,ARG4\ncommit,2014/02/03 03:40:00,taro,../input/1,test\ntag,,,,v1\n";
    let first = csv2sh(commands, users, false).unwrap();
    let second = csv2sh(commands, users, false).unwrap();
    assert_eq!(first, second);
}

#[test]
fn duplicate_user_key_last_write_wins() {
    let users = "ID,NAME,EMAIL\ntaro,Old Name,old@example.com\ntaro,New Name,new@example.com\n";
    let commands = "COMMAND,ARG1,ARG2,ARG3,ARG4\ncommit,2014/02/03 03:40:00,taro,../input/1,test\n";
    let out = csv2sh(commands, users, false).unwrap();
    assert!(out.contains("GIT_AUTHOR_NAME=\"New Name\""));
    assert!(out.contains("GIT_AUTHOR_EMAIL=\"new@example.com\""));
    assert!(!out.contains("Old Name"));
}

#[test]
fn user_table_wrong_column_count_is_parse_error() {
    let users = "ID,NAME,EMAIL\ntaro,OSAKA Taro\n";
    let commands = "COMMAND,ARG1,ARG2,ARG3,ARG4\ntag,,,,v1\n";
    assert_eq!(
        csv2sh(commands, users, false),
        Err(GenerationError::ParseError { row: 1 })
    );
}

#[test]
fn command_table_wrong_column_count_is_parse_error() {
    let users = "ID,NAME,EMAIL\ntaro,OSAKA Taro,taro@example.com\n";
    let commands = "COMMAND,ARG1,ARG2,ARG3,ARG4\ntag,,,,v1\ncommit,2014/02/03 03:40:00,taro,../input/1\n";
    assert_eq!(
        csv2sh(commands, users, false),
        Err(GenerationError::ParseError { row: 2 })
    );
}

#[test]
fn commit_missing_fields_are_reported_by_position() {
    let users = "ID,NAME,EMAIL\ntaro,OSAKA Taro,taro@example.com\n";
    let header = "COMMAND,ARG1,ARG2,ARG3,ARG4\n";
    let no_ts = format!("{header}commit,,taro,../input/1,test\n");
    assert_eq!(
        csv2sh(&no_ts, users, false),
        Err(GenerationError::MissingField { row: 1, field: 1 })
    );
    let no_user = format!("{header}commit,2014/02/03 03:40:00,,../input/1,test\n");
    assert_eq!(
        csv2sh(&no_user, users, false),
        Err(GenerationError::MissingField { row: 1, field: 2 })
    );
    let no_src = format!("{header}commit,2014/02/03 03:40:00,taro,,test\n");
    assert_eq!(
        csv2sh(&no_src, users, false),
        Err(GenerationError::MissingField { row: 1, field: 3 })
    );
    let no_msg = format!("{header}commit,2014/02/03 03:40:00,taro,../input/1,\n");
    assert_eq!(
        csv2sh(&no_msg, users, false),
        Err(GenerationError::MissingField { row: 1, field: 4 })
    );
}

#[test]
fn tag_missing_name_is_reported() {
    let users = "ID,NAME,EMAIL\n";
    let commands = "COMMAND,ARG1,ARG2,ARG3,ARG4\ntag,,,,\n";
    assert_eq!(
        csv2sh(commands, users, false),
        Err(GenerationError::MissingField { row: 1, field: 4 })
    );
}

#[test]
fn invalid_timestamps_are_rejected() {
    let users = "ID,NAME,EMAIL\ntaro,OSAKA Taro,taro@example.com\n";
    let header = "COMMAND,ARG1,ARG2,ARG3,ARG4\n";
    for bad in [
        "2014/02/30 10:00:00",
        "2014-02-03 10:00:00",
        "2014/2/3 03:40:00",
        "2014/02/03 24:00:00",
        "2014/02/03 03:40:60",
        "2014/02/03 03:40:0",
        "2100/02/29 00:00:00",
    ] {
        let commands = format!("{header}commit,{bad},taro,../input/1,test\n");
        assert_eq!(
            csv2sh(&commands, users, false),
            Err(GenerationError::InvalidTimestamp { row: 1, text: bad.to_string() }),
            "timestamp {bad} should be rejected"
        );
    }
}

#[test]
fn command_kind_is_case_insensitive() {
    let users = "ID,NAME,EMAIL\ntaro,OSAKA Taro,taro@example.com\n";
    let commands =
        "COMMAND,ARG1,ARG2,ARG3,ARG4\nCOMMIT,2014/02/03 03:40:00,taro,../input/1,test\nTag,,,,v1\n";
    let out = csv2sh(commands, users, false).unwrap();
    assert!(out.contains("git commit -m \"test\""));
    assert!(out.contains("git tag v1\n"));
}

#[test]
fn header_only_tables_yield_bracketing_lines() {
    let out = csv2sh("COMMAND,ARG1,ARG2,ARG3,ARG4\n", "ID,NAME,EMAIL\n", false).unwrap();
    assert_eq!(out, "mkdir out\npushd out\ngit init\npopd\n");
}

#[test]
fn commit_message_is_double_quoted() {
    let users = "ID,NAME,EMAIL\ntaro,OSAKA Taro,taro@example.com\n";
    let commands =
        "COMMAND,ARG1,ARG2,ARG3,ARG4\ncommit,2014/02/03 03:40:00,taro,../input/1,two words\n";
    let out = csv2sh(commands, users, false).unwrap();
    assert!(out.contains("git commit -m \"two words\"\n"));
}
