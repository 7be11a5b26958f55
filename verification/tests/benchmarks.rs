use disruptor::args::{judge_args, parse_args, usage, CommonTestOpts, ParsedArgs};
use disruptor::bench::{
    add_received, calculate_ops_per_second, next_number, triangle_fits, triangle_number, Received,
    Tally, END_OF_NUMBERS, NUM_ITERATIONS,
};
use disruptor::text::{decimal, parse_number, NumberError};

fn arguments(args: &[&str]) -> Vec<String> {
    args.iter().map(|arg| arg.to_string()).collect()
}

fn run(args: &[&str]) -> u64 {
    match parse_args(&arguments(args), 77) {
        ParsedArgs::Run(CommonTestOpts { n_iterations }) => n_iterations,
        _ => panic!("the arguments ask for something else"),
    }
}

#[test]
fn the_number_of_iterations_can_be_given() {
    assert_eq!(run(&["bench"]), 77);
    assert_eq!(run(&["bench", "-n", "12"]), 12);
    assert_eq!(run(&["bench", "--iterations", "18446744073709551615"]), u64::MAX);
    assert_eq!(run(&["bench", "--iterations=5", "ignored"]), 5);
    assert_eq!(run(&["bench", "-n+8"]), 8);
}

#[test]
fn help_goes_before_everything_else() {
    let expected = "Usage: bench [OPTIONS]

Options:
    -h, --help          show this message and exit
    -n, --iterations N  how many iterations to perform in each benchmark
                        (default 77)
";
    assert_eq!(usage("bench", 77), expected);
    match parse_args(&arguments(&["bench", "-n", "x", "--help"]), 77) {
        ParsedArgs::Help(text) => assert_eq!(text, expected),
        _ => panic!("help was asked for"),
    }
}

#[test]
fn invalid_arguments_are_refused() {
    match parse_args(&arguments(&["bench", "--what"]), 77) {
        ParsedArgs::Invalid(text) => assert_eq!(
            text,
            "Unrecognized option: 'what'\nUse 'bench --help' to see a list of valid options."
        ),
        _ => panic!("the option does not exist"),
    }
    match parse_args(&arguments(&["b", "-n"]), 77) {
        ParsedArgs::Invalid(text) => assert_eq!(
            text,
            "Argument to option 'n' missing\nUse 'b --help' to see a list of valid options."
        ),
        _ => panic!("the value is missing"),
    }
}

#[test]
fn a_number_is_required() {
    match parse_args(&arguments(&["bench", "-n", "1x"]), 77) {
        ParsedArgs::NotANumber(text, error) => {
            assert_eq!(text, "1x");
            assert_eq!(error, NumberError::InvalidDigit);
        }
        _ => panic!("the value is not a number"),
    }
}

#[test]
fn findings_are_judged() {
    match judge_args(Ok((false, Some("9".to_string()))), "b", 1) {
        ParsedArgs::Run(opts) => assert_eq!(opts, CommonTestOpts { n_iterations: 9 }),
        _ => panic!("a number was given"),
    }
    match judge_args(Ok((false, None)), "b", 1) {
        ParsedArgs::Run(opts) => assert_eq!(opts.n_iterations, 1),
        _ => panic!("nothing was given"),
    }
    match judge_args(Err("Oh no".to_string()), "b", 1) {
        ParsedArgs::Invalid(text) => {
            assert_eq!(text, "Oh no\nUse 'b --help' to see a list of valid options.")
        }
        _ => panic!("the arguments are not valid"),
    }
}

#[test]
fn numbers_are_parsed() {
    assert_eq!(parse_number("0"), Ok(0));
    assert_eq!(parse_number("007"), Ok(7));
    assert_eq!(parse_number("+42"), Ok(42));
    assert_eq!(parse_number(""), Err(NumberError::Empty));
    assert_eq!(parse_number("+"), Err(NumberError::InvalidDigit));
    assert_eq!(parse_number("-1"), Err(NumberError::InvalidDigit));
    assert_eq!(parse_number(" 1"), Err(NumberError::InvalidDigit));
    assert_eq!(parse_number("18446744073709551616"), Err(NumberError::Overflow));
    for error in vec!["", "x", "18446744073709551616"] {
        let message = error.parse::<u64>().unwrap_err().to_string();
        assert_eq!(parse_number(error).unwrap_err().message(), message);
    }
    for number in vec![0, 9, 10, 1234567890, u64::MAX] {
        assert_eq!(decimal(number), number.to_string());
        assert_eq!(parse_number(&decimal(number)), Ok(number));
    }
}

#[test]
fn triangle_numbers() {
    assert_eq!(triangle_number(0), 0);
    assert_eq!(triangle_number(10), 55);
    assert_eq!(triangle_number(1000), 500500);
    assert!(triangle_fits(NUM_ITERATIONS));
    assert!(triangle_fits(6074000999));
    assert!(!triangle_fits(6074001000));
    assert!(!triangle_fits(u64::MAX));
}

#[test]
fn operations_per_second() {
    assert_eq!(calculate_ops_per_second(5, 1_000_000_005, 42), 42);
    assert_eq!(calculate_ops_per_second(0, 3, 1), 333_333_333);
}

#[test]
fn all_numbers_arrive() {
    let iterations = 100;
    let mut tally = Tally::new();
    let mut sum = Some(0);
    let mut sent = 0;
    let mut result: Option<u64> = None;
    while let Some(number) = next_number(sent, iterations) {
        sent += 1;
        match tally.receive(number) {
            Received::Counted => sum = add_received(sum.unwrap(), number),
            Received::Finished(total) => result = Some(total),
            Received::Unexpected => unreachable!(),
        }
    }
    assert_eq!(sent, 101);
    assert_eq!(sum, Some(5050));
    assert_eq!(result, Some(triangle_number(iterations)));
    assert_eq!(add_received(5050, END_OF_NUMBERS), None);
}

#[test]
fn a_number_out_of_order_is_noticed() {
    let mut tally = Tally::new();
    assert_eq!(tally.receive(2), Received::Unexpected);
    assert_eq!(tally.receive(1), Received::Counted);
    assert_eq!(tally.receive(1), Received::Unexpected);
    assert_eq!(tally.receive(2), Received::Counted);
    assert_eq!(tally.receive(END_OF_NUMBERS), Received::Finished(3));
}

#[test]
fn the_last_sum_that_fits_is_counted() {
    let mut tally = Tally { sum: 18446744064889498501, expected_value: 6074000999 };
    assert_eq!(tally.receive(6074000999), Received::Counted);
    assert_eq!(tally.sum, 18446744070963499500);
    assert_eq!(tally.receive(1), Received::Unexpected);
    assert_eq!(tally.receive(END_OF_NUMBERS), Received::Finished(18446744070963499500));
}
