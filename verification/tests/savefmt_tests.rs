use bevytor::savefmt::{reformat_projection_areas, str_to_chars};

fn reformat(s: &str) -> String {
    reformat_projection_areas(&str_to_chars(s)).into_iter().collect()
}

#[test]
fn area_block_is_compacted() {
    let input = "projection: (\n      area: (\n        min: (\n          x: -1.7,\n          y: -0.95,\n        ),\n        max: (\n          x: 1.7,\n          y: 0.95,\n        ),\n      ),\n      scale: 0.01,\n    ),";
    let expected = "projection: (\n      area: (\n            min: (-1.7, -0.95),\n            max: (1.7, 0.95),\n          ),\n      scale: 0.01,\n    ),";
    assert_eq!(reformat(input), expected);
}

#[test]
fn every_area_block_is_compacted() {
    let block = "area: (\n min: (\n x: 1,\n y: 2,\n ),\n max: (\n x: 3.5,\n y: +4,\n ),\n ),";
    let input = format!("a{}b{}c", block, block);
    let compact = "area: (\n            min: (1, 2),\n            max: (3.5, +4),\n          ),";
    let expected = format!("a{}b{}c", compact, compact);
    assert_eq!(reformat(&input), expected);
}

#[test]
fn text_without_area_blocks_is_unchanged() {
    let input = "entities: [\n  (name: \"Cube\", area: 3),\n]";
    assert_eq!(reformat(input), input);
    assert_eq!(reformat(""), "");
}

#[test]
fn incomplete_blocks_are_copied_through() {
    let input = "area: (\n min: (\n x: 1,\n y: 2,\n ),\n max: (\n x: oops,\n y: 4,\n ),\n ),";
    assert_eq!(reformat(input), input);
}
