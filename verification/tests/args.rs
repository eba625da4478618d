use nats_stream_dump::args::{ArgsError, Cli, Command, DumpArgs};

fn parse(args: &[&str]) -> Cli {
    Cli::try_parse_from(args).expect("should parse valid args")
}

fn parse_dump(args: &[&str]) -> DumpArgs {
    let cli = parse(args);
    let Command::Dump(dump_args) = cli.command;
    dump_args
}

#[test]
fn should_parse_dump_subcommand_with_all_args() {
    let args = parse_dump(&["nats-stream-dump", "dump", "my-stream", "-o", "output.json"]);

    assert_eq!(args.stream, "my-stream");
    assert_eq!(args.output, Some("output.json".to_string()));
    assert!(args.count.is_none());
    assert!(!args.pretty);
}

#[test]
fn should_use_default_nats_url() {
    let cli = parse(&["nats-stream-dump", "dump", "my-stream", "-o", "output.json"]);
    assert_eq!(cli.url, "nats://localhost:4222");
}

#[test]
fn should_parse_custom_nats_url() {
    let cli = parse(&[
        "nats-stream-dump",
        "--url",
        "nats://custom:4222",
        "dump",
        "my-stream",
        "-o",
        "output.json",
    ]);
    assert_eq!(cli.url, "nats://custom:4222");
}

#[test]
fn should_parse_count_option() {
    let args = parse_dump(&[
        "nats-stream-dump",
        "dump",
        "my-stream",
        "-o",
        "output.json",
        "-n",
        "100",
    ]);
    assert_eq!(args.count, Some(100));
}

#[test]
fn should_parse_pretty_flag() {
    let args = parse_dump(&[
        "nats-stream-dump",
        "dump",
        "my-stream",
        "-o",
        "output.json",
        "--pretty",
    ]);
    assert!(args.pretty);
}

#[test]
fn should_reject_missing_stream_name() {
    let result = Cli::try_parse_from(&["nats-stream-dump", "dump", "-o", "output.json"]);
    assert!(result.is_err());
}

#[test]
fn should_accept_missing_output_flag_and_default_to_none() {
    let args = parse_dump(&["nats-stream-dump", "dump", "my-stream"]);
    assert!(args.output.is_none());
}

#[test]
fn should_parse_output_flag_as_some() {
    let args = parse_dump(&["nats-stream-dump", "dump", "my-stream", "-o", "output.json"]);
    assert_eq!(args.output, Some("output.json".to_string()));
}

#[test]
fn should_parse_filter_with_long_flag() {
    let args = parse_dump(&[
        "nats-stream-dump",
        "dump",
        "my-stream",
        "-o",
        "output.json",
        "--filter",
        "$[?@.severity == 'critical']",
    ]);
    assert_eq!(
        args.filter,
        Some("$[?@.severity == 'critical']".to_string())
    );
}

#[test]
fn should_parse_filter_with_short_flag() {
    let args = parse_dump(&[
        "nats-stream-dump",
        "dump",
        "my-stream",
        "-o",
        "output.json",
        "-f",
        "$[?@.value > 50]",
    ]);
    assert_eq!(args.filter, Some("$[?@.value > 50]".to_string()));
}

#[test]
fn should_default_filter_to_none_when_omitted() {
    let args = parse_dump(&["nats-stream-dump", "dump", "my-stream", "-o", "output.json"]);
    assert!(args.filter.is_none());
}

#[test]
fn args_missing_stream_is_reported_as_such() {
    let result = Cli::try_parse_from(&["nats-stream-dump", "dump", "-o", "output.json"]);
    assert_eq!(result, Err(ArgsError::MissingStream));
}

#[test]
fn args_without_subcommand_are_refused() {
    assert_eq!(
        Cli::try_parse_from(&["nats-stream-dump"]),
        Err(ArgsError::MissingSubcommand)
    );
    assert_eq!(Cli::try_parse_from(&[]), Err(ArgsError::MissingSubcommand));
    assert_eq!(
        Cli::try_parse_from(&["nats-stream-dump", "--url", "nats://x:1"]),
        Err(ArgsError::MissingSubcommand)
    );
}

#[test]
fn args_unknown_subcommand_is_named() {
    assert_eq!(
        Cli::try_parse_from(&["nats-stream-dump", "load", "s"]),
        Err(ArgsError::UnknownSubcommand("load".to_string()))
    );
}

#[test]
fn args_help_is_recognised_anywhere() {
    assert_eq!(
        Cli::try_parse_from(&["nats-stream-dump", "--help"]),
        Err(ArgsError::HelpRequested)
    );
    assert_eq!(
        Cli::try_parse_from(&["nats-stream-dump", "dump", "-h"]),
        Err(ArgsError::HelpRequested)
    );
    assert_eq!(
        Cli::try_parse_from(&["nats-stream-dump", "help"]),
        Err(ArgsError::HelpRequested)
    );
    assert_eq!(
        Cli::try_parse_from(&["nats-stream-dump", "help", "dump"]),
        Err(ArgsError::HelpRequested)
    );
}

#[test]
fn args_values_may_follow_an_equals_sign_or_be_attached() {
    let cli = parse(&[
        "nats-stream-dump",
        "dump",
        "--url=nats://a:1",
        "s",
        "-n5",
        "-o=out.json",
        "--filter=$[?@.x == 1]",
    ]);
    assert_eq!(cli.url, "nats://a:1");
    let Command::Dump(args) = cli.command;
    assert_eq!(args.stream, "s");
    assert_eq!(args.count, Some(5));
    assert_eq!(args.output, Some("out.json".to_string()));
    assert_eq!(args.filter, Some("$[?@.x == 1]".to_string()));
}

#[test]
fn args_url_may_follow_the_subcommand() {
    let cli = parse(&["nats-stream-dump", "dump", "s", "--url", "nats://b:2"]);
    assert_eq!(cli.url, "nats://b:2");
}

#[test]
fn args_repeated_option_is_refused() {
    assert_eq!(
        Cli::try_parse_from(&["p", "dump", "s", "-o", "a", "--output", "b"]),
        Err(ArgsError::RepeatedArgument("output".to_string()))
    );
    assert_eq!(
        Cli::try_parse_from(&["p", "dump", "s", "--pretty", "--pretty"]),
        Err(ArgsError::RepeatedArgument("pretty".to_string()))
    );
}

#[test]
fn args_count_must_be_an_unsigned_number() {
    assert_eq!(
        Cli::try_parse_from(&["p", "dump", "s", "-n", "ten"]),
        Err(ArgsError::InvalidCount("ten".to_string()))
    );
    assert_eq!(
        Cli::try_parse_from(&["p", "dump", "s", "-n", "18446744073709551616"]),
        Err(ArgsError::InvalidCount("18446744073709551616".to_string()))
    );
    let args = parse_dump(&["p", "dump", "s", "-n", "18446744073709551615"]);
    assert_eq!(args.count, Some(u64::MAX));
    let args = parse_dump(&["p", "dump", "s", "-n", "+7"]);
    assert_eq!(args.count, Some(7));
}

#[test]
fn args_option_without_value_is_refused() {
    assert_eq!(
        Cli::try_parse_from(&["p", "dump", "s", "-o"]),
        Err(ArgsError::MissingValue("output".to_string()))
    );
    assert_eq!(
        Cli::try_parse_from(&["p", "dump", "s", "--filter", "--pretty"]),
        Err(ArgsError::MissingValue("filter".to_string()))
    );
}

#[test]
fn args_second_positional_is_unexpected() {
    assert_eq!(
        Cli::try_parse_from(&["p", "dump", "s", "t"]),
        Err(ArgsError::UnexpectedArgument("t".to_string()))
    );
    assert_eq!(
        Cli::try_parse_from(&["p", "dump", "s", "--verbose"]),
        Err(ArgsError::UnexpectedArgument("--verbose".to_string()))
    );
    assert_eq!(
        Cli::try_parse_from(&["p", "-o", "x", "dump", "s"]),
        Err(ArgsError::UnexpectedArgument("-o".to_string()))
    );
}

#[test]
fn args_double_dash_ends_options() {
    let args = parse_dump(&["p", "dump", "--", "-weird-name"]);
    assert_eq!(args.stream, "-weird-name");
}

#[test]
fn args_errors_are_reported_in_words() {
    assert_eq!(ArgsError::MissingSubcommand.message(), "a subcommand is required");
    assert_eq!(
        ArgsError::UnknownSubcommand("x".to_string()).message(),
        "unrecognized subcommand 'x'"
    );
    assert_eq!(
        ArgsError::UnexpectedArgument("t".to_string()).message(),
        "unexpected argument 't' found"
    );
    assert_eq!(
        ArgsError::MissingValue("output".to_string()).message(),
        "a value is required for '--output'"
    );
    assert_eq!(
        ArgsError::InvalidCount("ten".to_string()).message(),
        "invalid value 'ten' for '--count <COUNT>'"
    );
    assert_eq!(
        ArgsError::RepeatedArgument("url".to_string()).message(),
        "the argument '--url' cannot be used multiple times"
    );
    assert_eq!(
        ArgsError::MissingStream.message(),
        "the following required argument was not provided: <STREAM>"
    );
    assert_eq!(ArgsError::HelpRequested.message(), "help was requested");
}
