use mdbook_quiz::nesting::nests_within;

fn nesting_of(text: &str) -> usize {
    (0..100_000).find(|limit| nests_within(text, *limit)).unwrap() as usize
}

fn levels(value: &toml::Value) -> usize {
    match value {
        toml::Value::Array(items) => 1 + items.iter().map(levels).max().unwrap_or(0),
        toml::Value::Table(table) => 1 + table.values().map(levels).max().unwrap_or(0),
        _ => 0,
    }
}

/// How deep the deepest array or table of a document lies below the
/// document itself.
fn depth(document: &toml::Value) -> usize {
    levels(document) - 1
}

fn statements(number: usize) -> Vec<String> {
    let n = number;
    vec![
        format!("k{} = \"a \\\" ] [ . # ' b\"\n", n),
        format!("k{} = 'a \" ] [ . # \\'\n", n),
        format!("k{} = \"\"\n", n),
        format!("k{} = ''\n", n),
        format!("k{} = [\"\", '', \"\"]\n", n),
        format!("k{} = \"\"\"multi\nline \" \"\" ] [ \\\"\"\" . # '''\n\"\"\"\n", n),
        format!("k{} = '''multi\n' '' ] [ \"\"\" # \\\n'''\n", n),
        format!("k{} = \"\"\"a\"\"\"\"\n", n),
        format!("k{} = \"\"\"a\"\"\"\"\"\n", n),
        format!("k{} = '''a''''\n", n),
        format!("k{} = '''a'''''\n", n),
        format!("k{} = \"\"\"\"\"\"\n", n),
        format!("k{} = ''''''\n", n),
        format!("k{} = [ \"]\", '[', \"\"\"]\"\"\", # comment ] \" '\n 1 ]\n", n),
        format!("k{} = {{ a = \"}}\", b = '{{', c.d = [1] }}\n", n),
        format!("k{} = 1 # comment \" ' [ {{ . \"\"\" '''\n", n),
        format!("\"quoted.{}\" = 1\n", n),
        format!("'literal.{}' = 1\n", n),
        format!("a{}.\"b.c\".'d.e' = 1.5\n", n),
        format!("k{} = \"\"\"\\\n   trimmed \\\n\n   more \"\"\"\n", n),
        format!("k{} = \"\\u005B \\\\\"\n", n),
        format!("k{} = \"\"\"\\\\\"\"\"\n", n),
        format!("k{} = \"crlf\"\r\nc{} = [\r\n  '#',\r\n]\r\n", n, n),
        format!("# {} only a comment \" ' [[[\n", n),
        format!("[t{}]\n", n),
        format!("[t{}.\"x.y\".'z]'] # ] [\n", n),
        format!("[[arr{}]]\n", n),
        format!("[[list{}.sub]]\n", n),
        format!("  [ s{} . t ]  \n", n),
        format!("k{} = 1979-05-27T07:32:00.999Z\n", n),
        format!("k{} = [[1, 2], [3.5, 4.5], [\"x[\"]]\n", n),
    ]
}

fn document(seed: u64) -> String {
    let mut state = seed.wrapping_mul(6364136223846793005).wrapping_add(1442695040888963407);
    let mut text = String::new();
    let count = 1 + (state >> 60) as usize;
    for number in 0..count {
        state = state.wrapping_mul(6364136223846793005).wrapping_add(1442695040888963407);
        let choices = statements(seed as usize * 100 + number);
        text.push_str(&choices[(state >> 33) as usize % choices.len()]);
    }
    text
}

#[test]
fn every_statement_is_read_by_the_parser() {
    for statement in statements(0) {
        assert!(statement.parse::<toml::Value>().is_ok(), "for {:?}", statement);
    }
}

#[test]
fn scan_is_outside_every_string_behind_a_statement() {
    for statement in statements(0) {
        let before = nesting_of(&statement);
        assert!(before <= 6, "for {:?}", statement);
        let text = format!("{}zz = {}{}\n", statement, "[".repeat(40), "]".repeat(40));
        let value: toml::Value = text.parse().unwrap();
        let count = nesting_of(&text);
        assert!(depth(&value) <= count, "for {:?}", statement);
        assert!(40 <= count && count <= 46, "for {:?}", statement);
    }
}

#[test]
fn document_nests_no_deeper_than_its_count() {
    for seed in 0..3000 {
        let deep = 1 + (seed as usize % 40);
        let text =
            format!("{}zz = {}{}\n", document(seed), "[".repeat(deep), "]".repeat(deep));
        let value = text.parse::<toml::Value>();
        assert!(value.is_ok(), "for {:?}", text);
        let count = nesting_of(&text);
        let depth = depth(&value.unwrap());
        assert!(depth <= count && count <= depth.max(deep) + 6, "for {:?}", text);
    }
}

#[test]
fn header_and_statement_together() {
    for parts in 1..30 {
        let header = format!("[h{}]\n", ".h".repeat(parts - 1));
        let key = format!("k{}", ".k".repeat(parts - 1));
        let text = format!(
            "{}{} = {}{{ a.b = 1 }}{}\n",
            header,
            key,
            "[".repeat(parts),
            "]".repeat(parts)
        );
        let value: toml::Value = text.parse().unwrap();
        assert_eq!(depth(&value), 3 * parts + 1);
        assert_eq!(nesting_of(&text), 4 * parts + 1);
    }
}

#[test]
fn header_through_arrays_of_tables() {
    for parts in 1..30 {
        let mut text = String::new();
        let mut name = String::new();
        for part in 0..parts {
            if part > 0 {
                name.push('.');
            }
            name.push('a');
            text.push_str(&format!("[[{}]]\n", name));
        }
        text.push_str(&format!("[{}.b]\nx = 1\n", name));
        let value: toml::Value = text.parse().unwrap();
        assert_eq!(depth(&value), 2 * parts + 1);
        assert_eq!(nesting_of(&text), 2 * parts + 2);
    }
}

#[test]
fn flat_values_count_as_flat() {
    let texts = [
        format!("x = [{}]\n", "0.5, ".repeat(500)),
        format!("x = [\n{}]\n", "  [0.5, 1.5],\n".repeat(500)),
        format!("x = {{ k = 1979-05-27T07:32:00.999Z{} }}\n", ", a.b = 1.5e3".repeat(1)),
        "a.b = 1.5\n".repeat(1).to_string() + &"c = 2.5\n".repeat(1),
        format!("x = [{}]\n", "{ p.q = 0.5 }, ".repeat(500)),
    ];
    for text in texts {
        let value: toml::Value = text.parse().unwrap();
        assert_eq!(nesting_of(&text), depth(&value), "for {:?}", text);
    }
}
