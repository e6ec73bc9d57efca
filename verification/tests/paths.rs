use fixed_width::paths::{select_paths, Paths, DEFAULT_INPUT, DEFAULT_OUTPUT};

fn arguments(values: &[&str]) -> Vec<String> {
    values.iter().map(|value| value.to_string()).collect()
}

fn defaults() -> Paths {
    Paths { input: DEFAULT_INPUT.to_string(), output: DEFAULT_OUTPUT.to_string() }
}

#[test]
fn default_paths() {
    assert_eq!(DEFAULT_INPUT, "/nfs_dir/input/info.csv");
    assert_eq!(DEFAULT_OUTPUT, "/nfs_dir/output/output.txt");
}

#[test]
fn no_arguments_take_the_defaults() {
    assert_eq!(select_paths(&[]), defaults());
}

#[test]
fn two_arguments_name_input_and_output() {
    assert_eq!(
        select_paths(&arguments(&["in.csv", "out.txt"])),
        Paths { input: "in.csv".to_string(), output: "out.txt".to_string() }
    );
}

#[test]
fn one_argument_overrides_nothing() {
    assert_eq!(select_paths(&arguments(&["in.csv"])), defaults());
}

#[test]
fn three_arguments_take_the_defaults() {
    assert_eq!(select_paths(&arguments(&["in.csv", "out.txt", "extra"])), defaults());
}
