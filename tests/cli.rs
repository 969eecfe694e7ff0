use turent::cli::{parse_arg, parse_args, parse_value};

#[test]
fn test_flag_parsing() {
    let res = parse_args(vec![
        String::from("init_client=true"),
        String::from("init_server=true"),
    ]);

    assert!(res.0 && res.1);

    let res = parse_args(vec![
        String::from("init_client=false"),
        String::from("init_server=true"),
    ]);

    assert!(!res.0 && res.1);

    let res = parse_args(vec![String::from("init_server=false")]);

    assert!(res.0 && !res.1);
}

#[test]
fn parse_value_only_true_is_true() {
    assert!(parse_value("true"));
    assert!(!parse_value("false"));
    assert!(!parse_value("True"));
    assert!(!parse_value("truer"));
    assert!(!parse_value(""));
}

#[test]
fn parse_arg_reads_value_after_first_equals() {
    assert_eq!(parse_arg(String::from("init_client=true")), (Some(true), None));
    assert_eq!(parse_arg(String::from("init_server=false")), (None, Some(false)));
    assert_eq!(parse_arg(String::from("init_server=true=x")), (None, Some(true)));
    assert_eq!(parse_arg(String::from("verbose=true")), (None, None));
}

#[test]
fn parse_arg_without_value_sets_nothing() {
    assert_eq!(parse_arg(String::from("init_client")), (None, None));
}

#[test]
fn parse_args_defaults_and_later_wins() {
    assert_eq!(parse_args(vec![]), (true, false));
    assert_eq!(
        parse_args(vec![
            String::from("init_server=true"),
            String::from("init_server=false"),
        ]),
        (true, false)
    );
    assert_eq!(parse_args(vec![String::from("program-name")]), (true, false));
}
