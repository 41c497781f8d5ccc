use sorth::prelude::{Engine, FloatTask, FloatWord, Sorth, Standard, Types, WordList};

fn single_of(v: &Types) -> Option<f32> {
    match v {
        Types::Int(a) => Some(*a as f32),
        Types::Long(a) => Some(*a as f32),
        Types::Float(a) => Some(f32::from_bits(*a)),
        Types::Double(a) => Some(f64::from_bits(*a) as f32),
        Types::Byte(a) => Some(*a as f32),
        Types::Str(_) => None,
    }
}

fn double_of(v: &Types) -> Option<f64> {
    match v {
        Types::Int(a) => Some(*a as f64),
        Types::Long(a) => Some(*a as f64),
        Types::Float(a) => Some(f32::from_bits(*a) as f64),
        Types::Double(a) => Some(f64::from_bits(*a)),
        Types::Byte(a) => Some(*a as f64),
        Types::Str(_) => None,
    }
}

fn flag_of(b: bool) -> Types {
    if b {
        Types::Int(-1)
    } else {
        Types::Int(0)
    }
}

fn unit_binary(word: FloatWord, wide: bool, a: &Types, b: &Types) -> Option<Types> {
    if wide {
        let (x, y) = (double_of(a)?, double_of(b)?);
        Some(match word {
            FloatWord::Add => Types::Double((x + y).to_bits()),
            FloatWord::Subtract => Types::Double((x - y).to_bits()),
            FloatWord::Multiply => Types::Double((x * y).to_bits()),
            FloatWord::Divide => Types::Double((x / y).to_bits()),
            FloatWord::Remainder => Types::Double((x % y).to_bits()),
            FloatWord::Equal => flag_of(x == y),
            FloatWord::NotEqual => flag_of(x != y),
            FloatWord::Greater => flag_of(x > y),
            _ => return None,
        })
    } else {
        let (x, y) = (single_of(a)?, single_of(b)?);
        Some(match word {
            FloatWord::Add => Types::Float((x + y).to_bits()),
            FloatWord::Subtract => Types::Float((x - y).to_bits()),
            FloatWord::Multiply => Types::Float((x * y).to_bits()),
            FloatWord::Divide => Types::Float((x / y).to_bits()),
            FloatWord::Remainder => Types::Float((x % y).to_bits()),
            FloatWord::Equal => flag_of(x == y),
            FloatWord::NotEqual => flag_of(x != y),
            FloatWord::Greater => flag_of(x > y),
            _ => return None,
        })
    }
}

fn unit(task: &FloatTask) -> Option<Types> {
    let first = task.operands.first()?;
    match task.word {
        FloatWord::Add
        | FloatWord::Subtract
        | FloatWord::Multiply
        | FloatWord::Divide
        | FloatWord::Remainder
        | FloatWord::Equal
        | FloatWord::NotEqual
        | FloatWord::Greater => unit_binary(task.word, task.wide, first, task.operands.get(1)?),
        FloatWord::Abs => match first {
            Types::Float(a) => Some(Types::Float(f32::from_bits(*a).abs().to_bits())),
            Types::Double(a) => Some(Types::Double(f64::from_bits(*a).abs().to_bits())),
            _ => None,
        },
        FloatWord::Show | FloatWord::ToStr => match first {
            Types::Float(a) => Some(Types::Str(f32::from_bits(*a).to_string())),
            Types::Double(a) => Some(Types::Str(f64::from_bits(*a).to_string())),
            _ => None,
        },
        FloatWord::ToInt => match first {
            Types::Float(a) => Some(Types::Int(f32::from_bits(*a) as i32)),
            Types::Double(a) => Some(Types::Int(f64::from_bits(*a) as i32)),
            _ => None,
        },
        FloatWord::ToLong => match first {
            Types::Float(a) => Some(Types::Long(f32::from_bits(*a) as i64)),
            Types::Double(a) => Some(Types::Long(f64::from_bits(*a) as i64)),
            _ => None,
        },
        FloatWord::ToByte => match first {
            Types::Float(a) => Some(Types::Byte(f32::from_bits(*a) as u8)),
            Types::Double(a) => Some(Types::Byte(f64::from_bits(*a) as u8)),
            _ => None,
        },
        FloatWord::ToFloat => match first {
            Types::Str(text) => text.parse::<f32>().ok().map(|x| Types::Float(x.to_bits())),
            other => single_of(other).map(|x| Types::Float(x.to_bits())),
        },
        FloatWord::ToDouble => match first {
            Types::Str(text) => text.parse::<f64>().ok().map(|x| Types::Double(x.to_bits())),
            other => double_of(other).map(|x| Types::Double(x.to_bits())),
        },
        FloatWord::Index => {
            let place = double_of(task.operands.get(1)?)? as usize;
            Some(Types::Long(place.min(i64::MAX as usize) as i64))
        }
    }
}

fn eval_with_unit(engine: &mut Engine, line: &str) -> Result<String, String> {
    let mut result = engine.eval(line.to_string());
    loop {
        let reply = match &engine.float_task {
            Some(task) => unit(task),
            None => break,
        };
        result = engine.resume(reply);
    }
    result
}

fn engine_with_words() -> Engine {
    let mut engine = Engine::new();
    engine.import_word_list(Standard::new());
    engine
}

#[test]
fn type_conversion() {
    let mut engine = Engine::new();

    let std_words = Standard::new();

    engine.import_word_list(std_words);

    let line = "17 to_long peek to_float peek to_double peek to_byte peek to_str .";

    let mut output = String::new();

    match eval_with_unit(&mut engine, line) {
        Ok(ok) => output += ok.trim(),
        Err(err) => output += err.trim(),
    }

    assert_eq!(output.as_str(), "17 17 17 17 17\nOk.");
}

#[test]
fn an_int_and_a_float_add_to_a_float() {
    let mut engine = engine_with_words();
    assert_eq!(eval_with_unit(&mut engine, "2 3.0f +"), Ok("\nOk.\n".to_string()));
    assert_eq!(engine.main_stack.len(), 1);
    assert!(matches!(engine.main_stack[0], Types::Float(bits) if bits == 5.0f32.to_bits()));
    assert_eq!(eval_with_unit(&mut engine, "."), Ok("5\nOk.\n".to_string()));
}

#[test]
fn the_wider_fractional_kind_wins() {
    let mut engine = engine_with_words();
    assert_eq!(eval_with_unit(&mut engine, "1.5f 2.25 *"), Ok("\nOk.\n".to_string()));
    assert!(matches!(engine.main_stack[0], Types::Double(bits) if bits == 3.375f64.to_bits()));
    assert_eq!(eval_with_unit(&mut engine, "drop 7l 0.5f -"), Ok("\nOk.\n".to_string()));
    assert!(matches!(engine.main_stack[0], Types::Float(bits) if bits == 6.5f32.to_bits()));
    assert_eq!(eval_with_unit(&mut engine, "drop 0x04 0.5 /"), Ok("\nOk.\n".to_string()));
    assert!(matches!(engine.main_stack[0], Types::Double(bits) if bits == 8.0f64.to_bits()));
    assert_eq!(eval_with_unit(&mut engine, "drop 7.5 2 % ."), Ok("1.5\nOk.\n".to_string()));
    assert_eq!(eval_with_unit(&mut engine, "-2.5f abs . -2.5 abs ."), Ok("2.5 2.5\nOk.\n".to_string()));
    assert_eq!(eval_with_unit(&mut engine, "1.0 0.0 / ."), Ok("inf\nOk.\n".to_string()));
}

#[test]
fn fractional_numbers_compare() {
    let mut engine = engine_with_words();
    assert_eq!(
        eval_with_unit(&mut engine, "2 2.5 > . 2 2.5 < . 2.0f 2 == . 2.5 2 != ."),
        Ok("-1 0 -1 -1\nOk.\n".to_string())
    );
}

#[test]
fn the_evaluation_waits_for_the_host() {
    let mut engine = engine_with_words();
    assert_eq!(engine.eval("1 . 2.5 . 3 .".to_string()), Ok("".to_string()));
    let task = engine.float_task.as_ref().unwrap();
    assert_eq!(task.word, FloatWord::ToDouble);
    assert!(task.wide);
    assert!(matches!(&task.operands[..], [Types::Str(text)] if text == "2.5"));
    assert_eq!(engine.contexts.len(), 1);
    assert_eq!(engine.resume(Some(Types::Double(2.5f64.to_bits()))), Ok("".to_string()));
    let task = engine.float_task.as_ref().unwrap();
    assert_eq!(task.word, FloatWord::Show);
    assert!(matches!(&task.operands[..], [Types::Double(bits)] if *bits == 2.5f64.to_bits()));
    assert_eq!(engine.resume(Some(Types::Str("2.5".to_string()))), Ok("1 2.5 3\nOk.\n".to_string()));
    assert!(engine.float_task.is_none());
    assert!(engine.contexts.is_empty());
}

#[test]
fn a_float_is_written_with_its_letter() {
    let mut engine = engine_with_words();
    assert_eq!(engine.eval("1.5f".to_string()), Ok("".to_string()));
    let task = engine.float_task.as_ref().unwrap();
    assert_eq!(task.word, FloatWord::ToFloat);
    assert!(!task.wide);
    assert!(matches!(&task.operands[..], [Types::Str(text)] if text == "1.5"));
}

#[test]
fn a_reply_of_the_wrong_kind_is_refused() {
    let mut engine = engine_with_words();
    assert_eq!(engine.eval("2.5 1 .".to_string()), Ok("".to_string()));
    assert_eq!(engine.resume(Some(Types::Int(2))), Err("Error: Invalid type!\n".to_string()));
    assert!(engine.float_task.is_none());
    assert!(engine.contexts.is_empty());
    assert!(engine.main_stack.is_empty());
    assert_eq!(engine.eval("2.5".to_string()), Ok("".to_string()));
    assert_eq!(engine.resume(Some(Types::Float(0))), Err("Error: Invalid type!\n".to_string()));
    assert_eq!(engine.eval("2.5".to_string()), Ok("".to_string()));
    assert_eq!(engine.resume(Some(Types::Double(0))), Ok("\nOk.\n".to_string()));
    assert_eq!(engine.eval("1 +".to_string()), Ok("".to_string()));
    assert_eq!(engine.float_task.as_ref().unwrap().word, FloatWord::Add);
    assert_eq!(engine.resume(Some(Types::Float(0))), Err("Error: Invalid type!\n".to_string()));
    assert_eq!(engine.eval("1 2.5f".to_string()), Ok("".to_string()));
    assert_eq!(engine.resume(Some(Types::Float(2.5f32.to_bits()))), Ok("\nOk.\n".to_string()));
    assert_eq!(engine.eval("==".to_string()), Ok("".to_string()));
    assert_eq!(engine.resume(Some(Types::Int(1))), Err("Error: Invalid type!\n".to_string()));
}

#[test]
fn no_reply_is_a_failure() {
    let mut engine = engine_with_words();
    assert_eq!(engine.eval("\" abc \" to_float".to_string()), Ok("".to_string()));
    assert_eq!(engine.resume(None), Err("Error: Type conversion failed!\n".to_string()));
    assert_eq!(engine.eval("\" abc \" to_double".to_string()), Ok("".to_string()));
    assert_eq!(engine.resume(None), Err("Error: Type conversion failed!\n".to_string()));
    assert_eq!(engine.eval("1 to_float".to_string()), Ok("".to_string()));
    assert_eq!(engine.resume(Some(Types::Float(1.0f32.to_bits()))), Ok("\nOk.\n".to_string()));
    assert_eq!(engine.eval("2 *".to_string()), Ok("".to_string()));
    assert_eq!(engine.resume(None), Err("Error: Invalid type!\n".to_string()));
    assert_eq!(
        eval_with_unit(&mut engine, "\" abc \" to_float"),
        Err("Error: Type conversion failed!\n".to_string())
    );
    assert_eq!(eval_with_unit(&mut engine, "\" 2.5 \" to_double ."), Ok("2.5\nOk.\n".to_string()));
}

#[test]
fn a_reply_without_a_task_is_dropped() {
    let mut engine = engine_with_words();
    assert_eq!(engine.resume(Some(Types::Int(1))), Ok("".to_string()));
    assert!(engine.main_stack.is_empty());
}

#[test]
fn a_new_line_waits_above_the_work_that_waits() {
    let mut engine = engine_with_words();
    assert_eq!(engine.eval("1 . 2.5 .".to_string()), Ok("".to_string()));
    assert!(engine.float_task.is_some());
    assert_eq!(engine.contexts.len(), 1);
    assert_eq!(engine.eval("3 .".to_string()), Ok("".to_string()));
    assert!(engine.float_task.is_some());
    assert_eq!(engine.contexts.len(), 2);
    assert_eq!(engine.contexts[1].next, 0);
    assert!(engine.main_stack.is_empty());
    let mut result = Ok(String::new());
    loop {
        let reply = match &engine.float_task {
            Some(task) => unit(task),
            None => break,
        };
        result = engine.resume(reply);
    }
    assert_eq!(result, Ok("1 3\nOk. 2.5\nOk.\n".to_string()));
    assert!(engine.contexts.is_empty());
    assert!(engine.main_stack.is_empty());
}

#[test]
fn work_inside_a_definition_is_resumed_there() {
    let mut engine = engine_with_words();
    assert_eq!(engine.eval(": half 2.0 / . 7 . ; 1 . 5 half 9 .".to_string()), Ok("".to_string()));
    assert_eq!(engine.contexts.len(), 2);
    assert!(engine.contexts[1].compiled);
    let mut result = Ok(String::new());
    loop {
        let reply = match &engine.float_task {
            Some(task) => unit(task),
            None => break,
        };
        result = engine.resume(reply);
    }
    assert_eq!(result, Ok("1 2.5 7 9\nOk.\n".to_string()));
    assert!(engine.contexts.is_empty());
    assert_eq!(engine.eval(": bad 1.5 + ; 1 bad".to_string()), Ok("".to_string()));
    assert_eq!(engine.contexts.len(), 2);
    assert_eq!(engine.resume(None), Err("Error: Type conversion failed!\n\n".to_string()));
    assert!(engine.contexts.is_empty());
}

#[test]
fn fractional_numbers_are_written_in_many_ways() {
    let mut engine = engine_with_words();
    assert_eq!(
        eval_with_unit(&mut engine, "1e3 . .5 . 5. . -2.5e-1 . +7.25 . 12345678901 ."),
        Ok("1000 0.5 5 -0.25 7.25 12345678901\nOk.\n".to_string())
    );
    assert_eq!(eval_with_unit(&mut engine, "inf . -Infinity . NaN ."), Ok("inf -inf NaN\nOk.\n".to_string()));
    assert_eq!(eval_with_unit(&mut engine, "2.5F . 1e2f ."), Ok("2.5 100\nOk.\n".to_string()));
    assert_eq!(eval_with_unit(&mut engine, "1e"), Err("Error: Unknown word: 1e\n".to_string()));
    assert_eq!(eval_with_unit(&mut engine, "."), Err("Error: Stack underflow!\n".to_string()));
    assert_eq!(eval_with_unit(&mut engine, "1.5.2"), Err("Error: Unknown word: 1.5.2\n".to_string()));
    assert_eq!(eval_with_unit(&mut engine, "e5"), Err("Error: Unknown word: e5\n".to_string()));
    assert_eq!(eval_with_unit(&mut engine, "f"), Err("Error: Unknown word: f\n".to_string()));
}

#[test]
fn fractional_numbers_turn_into_whole_ones() {
    let mut engine = engine_with_words();
    assert_eq!(
        eval_with_unit(&mut engine, "2.9 to_int . -2.9f to_long . 300.5 to_byte . 1.5 to_str ."),
        Ok("2 -2 255 1.5\nOk.\n".to_string())
    );
    assert_eq!(eval_with_unit(&mut engine, "1.5f to_float . 1.5 to_double ."), Ok("1.5 1.5\nOk.\n".to_string()));
}

#[test]
fn an_item_is_found_at_a_fractional_place() {
    let mut engine = engine_with_words();
    assert_eq!(
        eval_with_unit(&mut engine, "let a @a 5 push @a 7 push @a 1.0 get . @a 0.9f get ."),
        Ok("7 5\nOk.\n".to_string())
    );
    assert_eq!(
        eval_with_unit(&mut engine, "@a 2.0 get"),
        Err("Error: Varibale index out of range!\n".to_string())
    );
    assert_eq!(
        eval_with_unit(&mut engine, "5 2.0 get"),
        Err("Error: Variable not defined!\n".to_string())
    );
}

#[test]
fn fractional_numbers_move_like_other_values() {
    let mut engine = engine_with_words();
    assert_eq!(
        eval_with_unit(&mut engine, "1.5 2.5f swap dup . . . let v @v 0.25 push @v pop ."),
        Ok("1.5 1.5 2.5 0.25\nOk.\n".to_string())
    );
}

#[test]
fn a_text_and_a_fractional_number_do_not_combine() {
    let mut engine = engine_with_words();
    assert_eq!(eval_with_unit(&mut engine, "\" a \" 1.5 +"), Err("Error: Invalid type!\n".to_string()));
    assert_eq!(eval_with_unit(&mut engine, "1.5 \" a \" =="), Err("Error: Invalid type!\n".to_string()));
    assert_eq!(eval_with_unit(&mut engine, ": c 1.5 if ; c"), Err("Error: Invalid type!\n\n".to_string()));
}

#[test]
fn sorth_waits_for_the_host_too() {
    let mut sorth = Sorth::new();
    assert_eq!(sorth.eval("1.5 2 * .".to_string(), true), Ok("".to_string()));
    loop {
        let reply = match &sorth.engine.float_task {
            Some(task) => unit(task),
            None => break,
        };
        let result = sorth.resume(reply);
        if sorth.engine.float_task.is_none() {
            assert_eq!(result, Ok("3".to_string()));
        } else {
            assert_eq!(result, Ok("".to_string()));
        }
    }
    assert!(sorth.engine.main_stack.is_empty());
}
