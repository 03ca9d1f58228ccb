use makefile2doc::search;

#[test]
fn find_documentation_lines() {
    let contents = "\
## @target: build
## @name: up
## @desc: Start the docker container
up:
    docker compose up
";

    let expected = vec![
        "## @target: build",
        "## @name: up",
        "## @desc: Start the docker container",
    ];

    assert_eq!(expected, search(contents));
}

#[test]
fn finds_no_results() {
    let contents = "\
up:
    docker compose up
";
    let expected: Vec<&str> = Vec::new();

    assert_eq!(expected, search(contents));
}

#[test]
fn search_keeps_only_lines_that_start_with_the_marker() {
    let contents = "  ## @indented\n## @kept\n##@ no space\n# @ one hash\n## @\n## @last";
    assert_eq!(search(contents), vec!["## @kept", "## @", "## @last"]);
}

#[test]
fn search_strips_the_carriage_return_of_a_line_ending() {
    assert_eq!(search("## @a\r\n## @b\r\n"), vec!["## @a", "## @b"]);
}

#[test]
fn search_of_empty_text_is_empty() {
    let expected: Vec<&str> = Vec::new();
    assert_eq!(search(""), expected);
}

#[test]
fn search_agrees_with_a_filter_over_std_lines() {
    let samples = [
        "",
        "## @x",
        "## @x\n",
        "a\n## @b\nc\n## @d",
        "## @é\n\n## @\n",
        "## @a\r\n## @b\r",
        "\n\n## @",
    ];
    for contents in samples {
        let expected: Vec<&str> = contents
            .lines()
            .filter(|line| line.starts_with("## @"))
            .collect();
        assert_eq!(search(contents), expected, "for {:?}", contents);
    }
}
