use image_edit_rmcp::batch::BatchSlots;

fn run(n: usize, completions: Vec<(usize, Result<String, String>)>) -> Result<Option<Vec<String>>, String> {
    let mut slots = BatchSlots::new(n);
    for (index, outcome) in completions {
        if let Some(e) = slots.record(index, outcome) {
            return Err(e);
        }
    }
    Ok(slots.finish())
}

#[test]
fn results_come_back_in_input_order() {
    let order = [4usize, 2, 0, 3, 1];
    let completions = order.iter().map(|&i| (i, Ok(format!("text-{i}")))).collect();
    let out = run(5, completions).unwrap().unwrap();
    assert_eq!(out, vec!["text-0", "text-1", "text-2", "text-3", "text-4"]);
}

#[test]
fn third_failure_fails_the_batch() {
    let completions = vec![
        (0, Ok("a".to_string())),
        (1, Ok("b".to_string())),
        (2, Err("ocr failed".to_string())),
        (3, Ok("d".to_string())),
        (4, Ok("e".to_string())),
    ];
    assert_eq!(run(5, completions), Err("ocr failed".to_string()));
}

#[test]
fn failure_completing_first_fails_the_batch() {
    let completions = vec![(2, Err("boom".to_string())), (0, Ok("a".to_string()))];
    assert_eq!(run(3, completions), Err("boom".to_string()));
}

#[test]
fn missing_result_leaves_batch_unfinished() {
    let completions = vec![(0, Ok("a".to_string())), (2, Ok("c".to_string()))];
    assert_eq!(run(3, completions), Ok(None));
}

#[test]
fn empty_batch_finishes_empty() {
    assert_eq!(run(0, vec![]), Ok(Some(vec![])));
}
