use makefile2doc::generator::{generate, generate_cheat_sheet, generate_workflow_graph};
use makefile2doc::model::{Category, Command, MakefileDoc};
use makefile2doc::parser::{add_command, apply_line, clean_content, parse, ParserContext};
use makefile2doc::process;

fn feed(categories: &mut Vec<Category>, ctx: &mut ParserContext, line: &str) {
    let chars: Vec<char> = line.chars().collect();
    apply_line(categories, ctx, &chars);
}

fn named(name: &str) -> Command {
    Command {
        name: name.to_string(),
        description: format!("about {}", name),
        dependencies: vec![],
        env: vec![],
    }
}

#[test]
fn blank_text_gives_no_category() {
    for content in ["", " ", "\n", "\n\n\n", " \t \r\n \u{A0}\n"] {
        assert_eq!(parse(content).categories.len(), 0, "for {:?}", content);
    }
}

#[test]
fn text_without_annotations_gives_no_category() {
    let content = "all: build test\n\tcargo build\n# a comment\n.PHONY: all\n";
    assert_eq!(parse(content), MakefileDoc { categories: vec![] });
}

#[test]
fn clean_content_keeps_the_lines_that_are_not_blank() {
    assert_eq!(
        clean_content("a\n\n  b  \n \t \nc\r\n"),
        Ok(vec!["a", "  b  ", "c"])
    );
    assert_eq!(clean_content("\n x"), Ok(vec![" x"]));
}

#[test]
fn clean_content_agrees_with_a_filter_over_std_lines() {
    for content in ["x", "\nx\n", "a\r\n \r\nb", "é\n\u{3000}\nü", " \n\t\nlast\r"] {
        let expected: Vec<&str> = content.lines().filter(|l| !l.trim().is_empty()).collect();
        assert_eq!(clean_content(content), Ok(expected), "for {:?}", content);
    }
}

#[test]
fn new_context_is_in_the_general_category_with_empty_buffers() {
    let ctx = ParserContext::new();
    assert_eq!(ctx.current_category, "General");
    assert_eq!(ctx.buffer_desc, "");
    assert!(ctx.buffer_deps.is_empty());
    assert!(ctx.buffer_envs.is_empty());
}

#[test]
fn clear_metadata_empties_the_buffers_and_keeps_the_category() {
    let mut ctx = ParserContext::new();
    ctx.current_category = "Database".to_string();
    ctx.buffer_desc = "text".to_string();
    ctx.buffer_deps = vec!["a".to_string()];
    ctx.buffer_envs = vec!["B".to_string(), "C".to_string()];
    ctx.clear_metadata();
    assert_eq!(ctx.current_category, "Database");
    assert_eq!(ctx.buffer_desc, "");
    assert!(ctx.buffer_deps.is_empty());
    assert!(ctx.buffer_envs.is_empty());
}

#[test]
fn add_command_appends_to_the_category_or_creates_it_last() {
    let mut categories: Vec<Category> = Vec::new();
    add_command(&mut categories, &"A".to_string(), named("one"));
    add_command(&mut categories, &"B".to_string(), named("two"));
    add_command(&mut categories, &"A".to_string(), named("three"));
    assert_eq!(
        categories,
        vec![
            Category {
                name: "A".to_string(),
                commands: vec![named("one"), named("three")],
            },
            Category {
                name: "B".to_string(),
                commands: vec![named("two")],
            },
        ]
    );
}

#[test]
fn add_command_takes_the_first_category_of_that_name() {
    let mut categories = vec![
        Category {
            name: "A".to_string(),
            commands: vec![],
        },
        Category {
            name: "A".to_string(),
            commands: vec![],
        },
    ];
    add_command(&mut categories, &"A".to_string(), named("x"));
    assert_eq!(categories[0].commands, vec![named("x")]);
    assert!(categories[1].commands.is_empty());
}

#[test]
fn apply_line_follows_the_five_kinds_of_line() {
    let mut categories: Vec<Category> = Vec::new();
    let mut ctx = ParserContext::new();

    feed(&mut categories, &mut ctx, "   ## @category Tools  ");
    assert_eq!(ctx.current_category, "Tools");

    feed(&mut categories, &mut ctx, "## @description First");
    feed(&mut categories, &mut ctx, "\t## @description  and second ");
    assert_eq!(ctx.buffer_desc, "Firstand second");

    feed(&mut categories, &mut ctx, "## @depends a, b");
    feed(&mut categories, &mut ctx, "## @depends c");
    assert_eq!(ctx.buffer_deps, vec!["a", "b", "c"]);

    feed(&mut categories, &mut ctx, "## @env X");
    feed(&mut categories, &mut ctx, "## @env Y,Z");
    assert_eq!(ctx.buffer_envs, vec!["X", "Y", "Z"]);

    feed(&mut categories, &mut ctx, "\techo not a tag");
    feed(&mut categories, &mut ctx, "# ordinary comment");
    assert!(categories.is_empty());
    assert_eq!(ctx.buffer_desc, "Firstand second");

    feed(&mut categories, &mut ctx, "  run: prerequisites");
    assert_eq!(
        categories,
        vec![Category {
            name: "Tools".to_string(),
            commands: vec![Command {
                name: "run".to_string(),
                description: "Firstand second".to_string(),
                dependencies: vec!["a".to_string(), "b".to_string(), "c".to_string()],
                env: vec!["X".to_string(), "Y".to_string(), "Z".to_string()],
            }],
        }]
    );
    assert_eq!(ctx.current_category, "Tools");
    assert_eq!(ctx.buffer_desc, "");
    assert!(ctx.buffer_deps.is_empty());
    assert!(ctx.buffer_envs.is_empty());
}

#[test]
fn target_without_description_is_skipped_and_clears_the_buffers() {
    let content = "\
## @depends leaked
## @env LEAKED
private:
## @description Public
public:
";
    let doc = parse(content);
    assert_eq!(doc.categories.len(), 1);
    assert_eq!(doc.categories[0].commands.len(), 1);
    let cmd = &doc.categories[0].commands[0];
    assert_eq!(cmd.name, "public");
    assert!(cmd.dependencies.is_empty());
    assert!(cmd.env.is_empty());
}

#[test]
fn category_persists_until_the_next_category_tag() {
    let content = "\
## @category Build
## @description One
one:
## @description Two
two:
## @category Test
## @description Three
three:
";
    let doc = parse(content);
    assert_eq!(doc.categories.len(), 2);
    assert_eq!(doc.categories[0].name, "Build");
    assert_eq!(doc.categories[0].commands.len(), 2);
    assert_eq!(doc.categories[0].commands[0].name, "one");
    assert_eq!(doc.categories[0].commands[1].name, "two");
    assert_eq!(doc.categories[1].name, "Test");
    assert_eq!(doc.categories[1].commands[0].name, "three");
}

#[test]
fn category_without_a_documented_target_does_not_appear() {
    let content = "\
## @category Ghost
hidden:
## @category Real
## @description Shown
shown:
";
    let doc = parse(content);
    assert_eq!(doc.categories.len(), 1);
    assert_eq!(doc.categories[0].name, "Real");
}

#[test]
fn same_category_in_two_places_is_one_category_in_source_order() {
    let content = "\
## @category Database
## @description Migrations
migrate:
## @category Frontend
## @description Build
build:
## @category Database
## @description Seed
seed:
## @category Frontend
## @description Watch
watch:
";
    let doc = parse(content);
    let names: Vec<&str> = doc.categories.iter().map(|c| c.name.as_str()).collect();
    assert_eq!(names, vec!["Database", "Frontend"]);
    let database: Vec<&str> = doc.categories[0]
        .commands
        .iter()
        .map(|c| c.name.as_str())
        .collect();
    assert_eq!(database, vec!["migrate", "seed"]);
    let frontend: Vec<&str> = doc.categories[1]
        .commands
        .iter()
        .map(|c| c.name.as_str())
        .collect();
    assert_eq!(frontend, vec!["build", "watch"]);
}

#[test]
fn description_lines_concatenate_without_a_separator() {
    let content = "\
## @description One,
## @description two
## @description  and three.
target:
";
    let doc = parse(content);
    assert_eq!(
        doc.categories[0].commands[0].description,
        "One,twoand three."
    );
}

#[test]
fn lists_keep_repeated_and_empty_names() {
    let content = "\
## @description d
## @depends a, a,,b
## @depends a
## @env X,
t:
";
    let doc = parse(content);
    let cmd = &doc.categories[0].commands[0];
    assert_eq!(cmd.dependencies, vec!["a", "a", "", "b", "a"]);
    assert_eq!(cmd.env, vec!["X", ""]);
}

#[test]
fn dangling_block_at_the_end_gives_no_command() {
    let content = "\
## @description Kept
kept:
## @category Later
## @description Never used
## @depends x
";
    let doc = parse(content);
    assert_eq!(doc.categories.len(), 1);
    assert_eq!(doc.categories[0].name, "General");
    assert_eq!(doc.categories[0].commands.len(), 1);
}

#[test]
fn rule_bodies_and_comments_between_tags_are_passed_over() {
    let content = "\
## @description Build it
# a plain comment
\t@echo building
build: deps
\tcargo build
";
    let doc = parse(content);
    assert_eq!(doc.categories[0].commands[0].name, "build");
    assert_eq!(doc.categories[0].commands[0].description, "Build it");
}

#[test]
fn windows_line_endings_are_line_endings() {
    let content = "## @category Database\r\n## @description Run migrations\r\n## @depends build\r\nmigrate:\r\n";
    let doc = parse(content);
    assert_eq!(
        doc,
        MakefileDoc {
            categories: vec![Category {
                name: "Database".to_string(),
                commands: vec![Command {
                    name: "migrate".to_string(),
                    description: "Run migrations".to_string(),
                    dependencies: vec!["build".to_string()],
                    env: vec![],
                }],
            }],
        }
    );
}

#[test]
fn end_to_end_one_documented_target() {
    let input = "\
## @category Database
## @description Run migrations
## @depends build
migrate:
";
    let doc = parse(input);
    assert_eq!(doc.categories.len(), 1);
    assert_eq!(doc.categories[0].name, "Database");
    assert_eq!(doc.categories[0].commands.len(), 1);
    let cmd = &doc.categories[0].commands[0];
    assert_eq!(cmd.name, "migrate");
    assert_eq!(cmd.description, "Run migrations");
    assert_eq!(cmd.dependencies, vec!["build"]);
    assert!(cmd.env.is_empty());

    let graph = generate_workflow_graph(&doc);
    assert_eq!(
        graph,
        "## Workflow Graph\n```mermaid\ngraph TD;\n    migrate --> build;\n```\n\n"
    );
    assert_eq!(graph.matches("-->").count(), 1);

    assert_eq!(
        process(input),
        "# Makefile Documentation\n\n\
         ## Cheat Sheet\n\
         | Command | Category | Description |\n\
         | :--- | :--- | :--- |\n\
         | [`make migrate`](#database) | Database | Run migrations |\n\
         \n---\n\n\
         ## Workflow Graph\n\
         ```mermaid\n\
         graph TD;\n\
         \x20   migrate --> build;\n\
         ```\n\n\
         ---\n\n\
         ## Section Details\n\
         \n### Database\n\
         | Command | Description | Dependencies | Required Variables |\n\
         | :--- | :--- | :--- | :--- |\n\
         | `make migrate` | Run migrations | `build` | - |\n"
    );
}

#[test]
fn end_to_end_only_an_undocumented_target() {
    let input = "## @category Hidden\n## @depends build\nprivate:\n\techo hidden\n";
    let doc = parse(input);
    assert_eq!(doc.categories.len(), 0);
    assert_eq!(
        generate_cheat_sheet(&doc),
        "## Cheat Sheet\n| Command | Category | Description |\n| :--- | :--- | :--- |\n"
    );
    assert_eq!(process(input), generate(&MakefileDoc { categories: vec![] }));
}

#[test]
fn process_is_parse_then_generate() {
    let inputs = [
        "",
        "## @description d\nt:\n",
        "## @category C\n## @description a\\nb\n## @depends x, y\n## @env K\nt: x y\n\trun\n",
    ];
    for input in inputs {
        assert_eq!(process(input), generate(&parse(input)), "for {:?}", input);
    }
}

#[test]
fn processing_twice_gives_the_same_bytes() {
    let input = "## @category C\n## @description a\\nb\n## @depends x, y\nt:\n";
    let doc = parse(input);
    assert_eq!(generate(&doc).as_bytes(), generate(&doc).as_bytes());
    assert_eq!(process(input).as_bytes(), process(input).as_bytes());
}

#[test]
fn long_makefile_is_processed_line_by_line() {
    let mut input = String::new();
    for i in 0..5000 {
        input.push_str(&format!("## @category Group {}\n", i % 7));
        input.push_str(&format!("## @description Target number {}\n", i));
        input.push_str("## @depends first, second\n");
        input.push_str(&format!("target-{}: first second\n", i));
        input.push_str("\t@echo working\n\n");
    }
    let doc = parse(&input);
    assert_eq!(doc.categories.len(), 7);
    let total: usize = doc.categories.iter().map(|c| c.commands.len()).sum();
    assert_eq!(total, 5000);
    assert_eq!(doc.categories[3].commands[1].name, "target-10");
    let graph = generate_workflow_graph(&doc);
    assert_eq!(graph.matches(" --> ").count(), 10000);
    assert_eq!(process(&input), generate(&doc));
}
