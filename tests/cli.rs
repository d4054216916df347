use imager::cli::{CliError, CLI};

fn args(list: &[&str]) -> Vec<String> {
    list.iter().map(|s| s.to_string()).collect()
}

#[test]
fn parse_command_file_only() {
    let cli = CLI::parse(&args(&["imager", "shapes.txt"])).unwrap();
    assert!(!cli.help());
    assert!(!cli.verbose());
    assert_eq!(cli.command_path(), "shapes.txt");
    assert_eq!(cli.image_path(), &None);
}

#[test]
fn parse_all_options() {
    let cli = CLI::parse(&args(&["imager", "-v", "-i", "out.ppm", "shapes.txt"])).unwrap();
    assert!(!cli.help());
    assert!(cli.verbose());
    assert_eq!(cli.image_path(), &Some("out.ppm".to_string()));
    assert_eq!(cli.command_path(), "shapes.txt");
}

#[test]
fn parse_long_options() {
    let cli = CLI::parse(&args(&["imager", "--image-path", "a.ppm", "--verbose", "b.txt"])).unwrap();
    assert!(cli.verbose());
    assert_eq!(cli.image_path(), &Some("a.ppm".to_string()));
    assert_eq!(cli.command_path(), "b.txt");
}

#[test]
fn parse_help_stops_reading() {
    let cli = CLI::parse(&args(&["imager", "x.txt", "-h", "-v"])).unwrap();
    assert!(cli.help());
    assert!(!cli.verbose());
    assert_eq!(cli.command_path(), "x.txt");
}

#[test]
fn parse_flag_after_image_option_is_not_a_path() {
    let cli = CLI::parse(&args(&["imager", "-i", "-v", "c.txt"])).unwrap();
    assert!(cli.verbose());
    assert_eq!(cli.image_path(), &None);
    assert_eq!(cli.command_path(), "c.txt");
}

#[test]
fn parse_rejects_argument_count() {
    assert_eq!(CLI::parse(&args(&["imager"])).unwrap_err(), CliError::ArgumentCount);
    let too_many = args(&["imager", "-v", "-i", "o.ppm", "c.txt", "extra"]);
    assert_eq!(CLI::parse(&too_many).unwrap_err(), CliError::ArgumentCount);
}

#[test]
fn paths_lists_image_then_command() {
    let cli = CLI::parse(&args(&["imager", "-i", "out.ppm", "shapes.txt"])).unwrap();
    assert_eq!(cli.paths(), args(&["out.ppm", "shapes.txt"]));
    let cli = CLI::parse(&args(&["imager", "shapes.txt"])).unwrap();
    assert_eq!(cli.paths(), args(&["shapes.txt"]));
}
