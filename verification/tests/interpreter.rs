use bytecode::ByteCode::{
    ADD, DIVIDE, GOTO, LOAD_VAL, MULTIPLY, PRINT, PRINTLN, READ_VAR, RETURN_VALUE, SUBTRACT, TO,
    WRITE_VAR,
};
use bytecode::{interpret, interpret_within, render, ByteCode, Fault, Output};

#[test]
fn test_1() {
    let mut bytecodes = vec![
        LOAD_VAL(1),
        WRITE_VAR('x'),
        LOAD_VAL(2),
        WRITE_VAR('y'),
        READ_VAR('x'),
        LOAD_VAL(1),
        ADD,
        READ_VAR('y'),
        MULTIPLY,
        RETURN_VALUE,
    ];

    let result = interpret(&mut bytecodes);
    assert_eq!(result.result, Ok(4));
}

#[test]
fn test_2() {
    let mut bytecodes = vec![
        LOAD_VAL(1),
        WRITE_VAR('x'),
        LOAD_VAL(2),
        WRITE_VAR('y'),
        READ_VAR('x'),
        LOAD_VAL(1),
        ADD,
        READ_VAR('y'),
        DIVIDE,
        RETURN_VALUE,
    ];

    let result = interpret(&mut bytecodes);
    assert_eq!(result.result, Ok(1));
}

#[test]
fn test_3() {
    let mut bytecodes = vec![
        LOAD_VAL(1),
        WRITE_VAR('x'),
        LOAD_VAL(2),
        WRITE_VAR('y'),
        READ_VAR('x'),
        LOAD_VAL(1),
        ADD,
        READ_VAR('y'),
        SUBTRACT,
        RETURN_VALUE,
    ];

    let result = interpret(&mut bytecodes);
    assert_eq!(result.result, Ok(0));
}

#[test]
fn test_4() {
    let mut bytecodes = vec![LOAD_VAL(5), LOAD_VAL(2), ADD, RETURN_VALUE];

    let result = interpret(&mut bytecodes);
    assert_eq!(result.result, Ok(7));
}

#[test]
fn test_5() {
    let to: isize = 6;
    let mut bytecodes = vec![
        TO(to),
        LOAD_VAL(10),
        PRINT('-'),
        LOAD_VAL(1),
        PRINT('='),
        SUBTRACT,
        PRINTLN,
        GOTO(1),
        RETURN_VALUE,
    ];

    let result = interpret(&mut bytecodes);
    assert_eq!(result.result, Ok(to));
}

#[test]
fn test_6() {
    let to: isize = 10;
    let mut bytecodes = vec![
        TO(to),
        LOAD_VAL(0),
        PRINT('+'),
        LOAD_VAL(1),
        PRINT('='),
        ADD,
        PRINTLN,
        GOTO(1),
        RETURN_VALUE,
    ];

    let result = interpret(&mut bytecodes);
    assert_eq!(result.result, Ok(to));
}

fn countdown() -> Vec<ByteCode> {
    vec![
        TO(6),
        LOAD_VAL(10),
        PRINT('-'),
        LOAD_VAL(1),
        PRINT('='),
        SUBTRACT,
        PRINTLN,
        GOTO(1),
        RETURN_VALUE,
    ]
}

#[test]
fn countdown_prints_each_pass() {
    let mut bytecodes = countdown();
    let run = interpret(&mut bytecodes);
    assert_eq!(
        run.output,
        vec![
            Output::Print(10, '-'),
            Output::Print(1, '='),
            Output::Println(9),
            Output::Print(9, '-'),
            Output::Print(1, '='),
            Output::Println(8),
            Output::Print(8, '-'),
            Output::Print(1, '='),
            Output::Println(7),
            Output::Print(7, '-'),
            Output::Print(1, '='),
            Output::Println(6),
        ]
    );
    assert_eq!(
        render(&run.output),
        "10 - 1 = 9\n9 - 1 = 8\n8 - 1 = 7\n7 - 1 = 6\n"
    );
}

#[test]
fn countdown_patches_its_jump_target() {
    let mut bytecodes = countdown();
    interpret(&mut bytecodes);
    let mut patched = countdown();
    patched[1] = LOAD_VAL(7);
    assert_eq!(bytecodes, patched);
}

#[test]
fn count_up_prints_each_pass() {
    let mut bytecodes = vec![
        TO(3),
        LOAD_VAL(0),
        PRINT('+'),
        LOAD_VAL(1),
        PRINT('='),
        ADD,
        PRINTLN,
        GOTO(1),
        RETURN_VALUE,
    ];
    let run = interpret(&mut bytecodes);
    assert_eq!(run.result, Ok(3));
    assert_eq!(render(&run.output), "0 + 1 = 1\n1 + 1 = 2\n2 + 1 = 3\n");
    assert_eq!(bytecodes[1], LOAD_VAL(2));
}

#[test]
fn same_program_runs_the_same_twice() {
    let mut first = countdown();
    let mut second = countdown();
    let a = interpret(&mut first);
    let b = interpret(&mut second);
    assert_eq!(a.result, b.result);
    assert_eq!(a.output, b.output);
    assert_eq!(first, second);
}

#[test]
fn add_yields_the_sum() {
    for (a, b) in [(0, 0), (-3, 3), (isize::MAX - 1, 1), (isize::MIN, isize::MAX)] {
        let mut bytecodes = vec![LOAD_VAL(a), LOAD_VAL(b), ADD, RETURN_VALUE];
        assert_eq!(interpret(&mut bytecodes).result, Ok(a + b));
    }
}

#[test]
fn subtract_and_divide_keep_source_order() {
    let mut bytecodes = vec![LOAD_VAL(10), LOAD_VAL(3), SUBTRACT, RETURN_VALUE];
    assert_eq!(interpret(&mut bytecodes).result, Ok(7));
    let mut bytecodes = vec![LOAD_VAL(10), LOAD_VAL(3), DIVIDE, RETURN_VALUE];
    assert_eq!(interpret(&mut bytecodes).result, Ok(3));
}

#[test]
fn division_rounds_towards_zero() {
    for (a, b, q) in [(-7, 2, -3), (7, -2, -3), (-7, -2, 3), (7, 2, 3), (0, -5, 0)] {
        let mut bytecodes = vec![LOAD_VAL(a), LOAD_VAL(b), DIVIDE, RETURN_VALUE];
        assert_eq!(interpret(&mut bytecodes).result, Ok(q));
    }
}

#[test]
fn multiply_yields_the_product() {
    let mut bytecodes = vec![LOAD_VAL(-6), LOAD_VAL(7), MULTIPLY, RETURN_VALUE];
    assert_eq!(interpret(&mut bytecodes).result, Ok(-42));
}

#[test]
fn running_past_the_end_yields_the_top() {
    let mut bytecodes = vec![LOAD_VAL(5), LOAD_VAL(8)];
    assert_eq!(interpret(&mut bytecodes).result, Ok(8));
}

#[test]
fn return_ends_the_run_early() {
    let mut bytecodes = vec![LOAD_VAL(5), RETURN_VALUE, LOAD_VAL(8), PRINTLN];
    let run = interpret(&mut bytecodes);
    assert_eq!(run.result, Ok(5));
    assert!(run.output.is_empty());
}

#[test]
fn empty_program_underflows() {
    let mut bytecodes: Vec<ByteCode> = Vec::new();
    assert_eq!(interpret(&mut bytecodes).result, Err(Fault::StackUnderflow));
}

#[test]
fn consuming_instructions_underflow_on_an_empty_stack() {
    for instruction in [
        WRITE_VAR('x'),
        ADD,
        MULTIPLY,
        SUBTRACT,
        DIVIDE,
        RETURN_VALUE,
        GOTO(0),
        PRINT('-'),
        PRINTLN,
    ] {
        let mut bytecodes = vec![instruction, LOAD_VAL(1), RETURN_VALUE];
        let run = interpret(&mut bytecodes);
        assert_eq!(run.result, Err(Fault::StackUnderflow));
        assert!(run.output.is_empty());
        assert_eq!(bytecodes, vec![instruction, LOAD_VAL(1), RETURN_VALUE]);
    }
}

#[test]
fn arithmetic_underflows_on_one_slot() {
    for instruction in [ADD, MULTIPLY, SUBTRACT, DIVIDE] {
        let mut bytecodes = vec![LOAD_VAL(1), instruction, RETURN_VALUE];
        assert_eq!(interpret(&mut bytecodes).result, Err(Fault::StackUnderflow));
    }
}

#[test]
fn division_by_zero_faults() {
    let mut bytecodes = vec![LOAD_VAL(1), LOAD_VAL(0), DIVIDE, RETURN_VALUE];
    assert_eq!(interpret(&mut bytecodes).result, Err(Fault::DivideByZero));
}

#[test]
fn results_that_do_not_fit_fault() {
    let mut bytecodes = vec![LOAD_VAL(isize::MAX), LOAD_VAL(1), ADD, RETURN_VALUE];
    assert_eq!(interpret(&mut bytecodes).result, Err(Fault::Overflow));
    let mut bytecodes = vec![LOAD_VAL(isize::MIN), LOAD_VAL(1), SUBTRACT, RETURN_VALUE];
    assert_eq!(interpret(&mut bytecodes).result, Err(Fault::Overflow));
    let mut bytecodes = vec![LOAD_VAL(isize::MAX), LOAD_VAL(2), MULTIPLY, RETURN_VALUE];
    assert_eq!(interpret(&mut bytecodes).result, Err(Fault::Overflow));
    let mut bytecodes = vec![LOAD_VAL(isize::MIN), LOAD_VAL(-1), DIVIDE, RETURN_VALUE];
    assert_eq!(interpret(&mut bytecodes).result, Err(Fault::Overflow));
}

#[test]
fn jump_outside_the_program_faults() {
    let mut bytecodes = vec![LOAD_VAL(1), GOTO(2)];
    assert_eq!(interpret(&mut bytecodes).result, Err(Fault::IndexOutOfRange));
    assert_eq!(bytecodes, vec![LOAD_VAL(1), GOTO(2)]);
}

#[test]
fn jump_is_not_taken_at_the_threshold() {
    let mut bytecodes = vec![TO(4), LOAD_VAL(4), GOTO(99), RETURN_VALUE];
    assert_eq!(interpret(&mut bytecodes).result, Ok(4));
    assert_eq!(bytecodes, vec![TO(4), LOAD_VAL(4), GOTO(99), RETURN_VALUE]);
}

#[test]
fn threshold_defaults_to_zero() {
    let mut bytecodes = vec![LOAD_VAL(0), GOTO(99), RETURN_VALUE];
    assert_eq!(interpret(&mut bytecodes).result, Ok(0));
}

#[test]
fn reading_an_unknown_name_changes_nothing() {
    let mut bytecodes = vec![LOAD_VAL(1), WRITE_VAR('x'), LOAD_VAL(2), READ_VAR('z'), RETURN_VALUE];
    assert_eq!(interpret(&mut bytecodes).result, Ok(2));
    let mut bytecodes = vec![READ_VAR('z'), LOAD_VAL(3)];
    assert_eq!(interpret(&mut bytecodes).result, Ok(3));
}

#[test]
fn reading_finds_the_lowest_slot_of_a_name() {
    let mut bytecodes = vec![
        LOAD_VAL(1),
        WRITE_VAR('x'),
        LOAD_VAL(2),
        WRITE_VAR('x'),
        LOAD_VAL(3),
        READ_VAR('x'),
        RETURN_VALUE,
    ];
    assert_eq!(interpret(&mut bytecodes).result, Ok(1));
}

#[test]
fn written_value_survives_pushes_above_it() {
    let mut bytecodes = vec![
        LOAD_VAL(41),
        WRITE_VAR('v'),
        LOAD_VAL(7),
        LOAD_VAL(8),
        LOAD_VAL(9),
        WRITE_VAR('w'),
        READ_VAR('v'),
        RETURN_VALUE,
    ];
    assert_eq!(interpret(&mut bytecodes).result, Ok(41));
}

#[test]
fn arithmetic_results_are_anonymous() {
    let mut bytecodes = vec![
        LOAD_VAL(1),
        WRITE_VAR('a'),
        LOAD_VAL(2),
        WRITE_VAR('b'),
        ADD,
        LOAD_VAL(9),
        WRITE_VAR('c'),
        READ_VAR(' '),
        RETURN_VALUE,
    ];
    assert_eq!(interpret(&mut bytecodes).result, Ok(3));
}

#[test]
fn print_leaves_the_stack_alone() {
    let mut bytecodes = vec![LOAD_VAL(-12), PRINT('*'), PRINTLN, RETURN_VALUE];
    let run = interpret(&mut bytecodes);
    assert_eq!(run.result, Ok(-12));
    assert_eq!(run.output, vec![Output::Print(-12, '*'), Output::Println(-12)]);
    assert_eq!(render(&run.output), "-12 * -12\n");
}

#[test]
fn output_before_a_fault_is_kept() {
    let mut bytecodes = vec![LOAD_VAL(3), PRINTLN, ADD];
    let run = interpret(&mut bytecodes);
    assert_eq!(run.result, Err(Fault::StackUnderflow));
    assert_eq!(run.output, vec![Output::Println(3)]);
}

#[test]
fn bounded_run_gives_up_on_an_endless_loop() {
    let mut bytecodes = vec![LOAD_VAL(1), GOTO(0)];
    assert!(interpret_within(&mut bytecodes, 1000).is_none());
}

#[test]
fn bounded_run_needs_every_transition() {
    let program = vec![LOAD_VAL(5), LOAD_VAL(2), ADD, RETURN_VALUE];
    let mut bytecodes = program.clone();
    assert!(interpret_within(&mut bytecodes, 3).is_none());
    let mut bytecodes = program.clone();
    assert_eq!(interpret_within(&mut bytecodes, 4).map(|run| run.result), Some(Ok(7)));
    let mut bytecodes = program.clone();
    assert_eq!(interpret_within(&mut bytecodes, usize::MAX).map(|run| run.result), Some(Ok(7)));
    let mut bytecodes: Vec<ByteCode> = Vec::new();
    assert!(interpret_within(&mut bytecodes, 0).is_none());
}

#[test]
fn bounded_run_leaves_the_patches_made_so_far() {
    let mut bytecodes = countdown();
    assert!(interpret_within(&mut bytecodes, 8).is_none());
    assert_eq!(bytecodes[1], LOAD_VAL(9));
    let mut bytecodes = countdown();
    let run = interpret_within(&mut bytecodes, 100);
    assert_eq!(run.map(|run| run.result), Some(Ok(6)));
}
