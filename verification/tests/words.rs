use sorth::engine::{Conditional, Engine, EngineMode};
use sorth::standard::Standard;
use sorth::types::Types;
use sorth::word::{Keyword, WordDefinition, WordList, WordSymbol};

fn ready() -> Engine {
    let mut engine = Engine::new();
    engine.import_word_list(Standard::new());
    engine
}

fn says(engine: &mut Engine, line: &str) -> String {
    match engine.eval(line.to_string()) {
        Ok(text) => text,
        Err(message) => panic!("{:?} failed: {}", line, message),
    }
}

fn fails(engine: &mut Engine, line: &str) -> String {
    match engine.eval(line.to_string()) {
        Ok(text) => panic!("{:?} gave {:?}", line, text),
        Err(message) => message,
    }
}

#[test]
fn whole_numbers_widen() {
    let mut engine = ready();
    says(&mut engine, "2 3l +");
    assert!(matches!(engine.main_stack[0], Types::Long(5)));
    says(&mut engine, "drop 7l 2 -");
    assert!(matches!(engine.main_stack[0], Types::Long(5)));
    says(&mut engine, "drop 0x02 3 *");
    assert!(matches!(engine.main_stack[0], Types::Int(6)));
    says(&mut engine, "drop 3 0x02 *");
    assert!(matches!(engine.main_stack[0], Types::Int(6)));
    says(&mut engine, "drop 0x02 3L *");
    assert!(matches!(engine.main_stack[0], Types::Long(6)));
    says(&mut engine, "drop 2147483647 1l +");
    assert!(matches!(engine.main_stack[0], Types::Long(2147483648)));
    says(&mut engine, "drop -2147483648 1l -");
    assert!(matches!(engine.main_stack[0], Types::Long(-2147483649)));
    says(&mut engine, "drop 100000 100000l *");
    assert!(matches!(engine.main_stack[0], Types::Long(10000000000)));
}

#[test]
fn two_bytes_give_an_int() {
    let mut engine = ready();
    says(&mut engine, "0xff 0x01 +");
    assert!(matches!(engine.main_stack[0], Types::Int(256)));
    says(&mut engine, "drop 0x01 0xff -");
    assert!(matches!(engine.main_stack[0], Types::Int(-254)));
    says(&mut engine, "drop 0xff 0xff *");
    assert!(matches!(engine.main_stack[0], Types::Int(65025)));
    says(&mut engine, "drop 0xff 0x02 /");
    assert!(matches!(engine.main_stack[0], Types::Byte(127)));
    says(&mut engine, "drop 0xff 0x07 %");
    assert!(matches!(engine.main_stack[0], Types::Byte(3)));
}

#[test]
fn division_rounds_towards_zero() {
    let mut engine = ready();
    assert_eq!(says(&mut engine, "7 2 / . -7 2 / . 7 -2 / . -7 -2 / ."), "3 -3 -3 3\nOk.\n");
    assert_eq!(says(&mut engine, "7 2 % . -7 2 % . 7 -2 % . -7 -2 % ."), "1 -1 1 -1\nOk.\n");
    assert_eq!(says(&mut engine, "9223372036854775807l 2 / ."), "4611686018427387903\nOk.\n");
}

#[test]
fn arithmetic_fails_where_there_is_no_exact_result() {
    let mut engine = ready();
    assert_eq!(fails(&mut engine, "1 0 /"), "Error: Invalid type!\n");
    assert_eq!(fails(&mut engine, "1 0 %"), "Error: Invalid type!\n");
    assert_eq!(fails(&mut engine, "1l 0x00 /"), "Error: Invalid type!\n");
    assert_eq!(fails(&mut engine, "2147483647 1 +"), "Error: Invalid type!\n");
    assert_eq!(fails(&mut engine, "-2147483648 1 -"), "Error: Invalid type!\n");
    assert_eq!(fails(&mut engine, "65536 65536 *"), "Error: Invalid type!\n");
    assert_eq!(fails(&mut engine, "-2147483648 -1 /"), "Error: Invalid type!\n");
    assert_eq!(fails(&mut engine, "9223372036854775807l 1 +"), "Error: Invalid type!\n");
    assert_eq!(fails(&mut engine, "-2147483648 abs"), "Error: Invalid type!\n");
    assert_eq!(fails(&mut engine, "0x01 abs"), "Error: Invalid type!\n");
    assert!(engine.main_stack.is_empty());
    assert_eq!(says(&mut engine, "-2147483648 -1 % ."), "0\nOk.\n");
    assert_eq!(says(&mut engine, "-5 abs . 5 abs . -5l abs ."), "5 5 5\nOk.\n");
}

#[test]
fn arithmetic_needs_two_values() {
    let mut engine = ready();
    assert_eq!(fails(&mut engine, "+"), "Error: Stack underflow!\n");
    assert_eq!(fails(&mut engine, "1 +"), "Error: Stack underflow!\n");
    assert!(engine.main_stack.is_empty());
    assert_eq!(fails(&mut engine, "1 2 rot"), "Error: Stack underflow!\n");
    assert!(engine.main_stack.is_empty());
    assert_eq!(fails(&mut engine, "1 swap"), "Error: Stack underflow!\n");
    assert_eq!(fails(&mut engine, "1 2dup"), "Error: Stack underflow!\n");
    assert_eq!(fails(&mut engine, "dup"), "Error: Stack underflow!\n");
    assert_eq!(fails(&mut engine, "drop"), "Error: Stack underflow!\n");
    assert_eq!(says(&mut engine, "1 2 drop ."), "1\nOk.\n");
}

#[test]
fn texts_are_joined_and_compared() {
    let mut engine = ready();
    assert_eq!(says(&mut engine, "\" a  b \" \" c \" + ."), "a b c\nOk.\n");
    assert_eq!(fails(&mut engine, "\" a \" \" b \" -"), "Error: Invalid type!\n");
    assert_eq!(fails(&mut engine, "\" a \" 1 +"), "Error: Invalid type!\n");
    assert_eq!(fails(&mut engine, "1 \" a \" *"), "Error: Invalid type!\n");
    assert_eq!(fails(&mut engine, "1 \" a \" =="), "Error: Invalid type!\n");
    assert_eq!(
        says(&mut engine, "\" a \" \" a \" == . \" a \" \" b \" == . \" a \" \" b \" != ."),
        "-1 0 -1\nOk.\n"
    );
    assert_eq!(
        says(&mut engine, "\" a \" \" b \" > . \" a \" \" b \" < . \" ab \" \" a \" < . \" a \" \" a \" > ."),
        "-1 0 -1 0\nOk.\n"
    );
}

#[test]
fn whole_numbers_compare_across_kinds() {
    let mut engine = ready();
    assert_eq!(says(&mut engine, "5 5l == . 0x05 5 == . 5l 0x06 != . 3000000000l 5 < ."), "-1 -1 -1 -1\nOk.\n");
    assert_eq!(says(&mut engine, "5 3000000000l > . -1 0x01 > . -1 0x01 < ."), "-1 -1 0\nOk.\n");
}

#[test]
fn truth_words_take_ints() {
    let mut engine = ready();
    assert_eq!(says(&mut engine, "-1 -1 and . -1 0 and . 0 -1 and . 0 0 and . 5 5 and ."), "-1 0 0 0 0\nOk.\n");
    assert_eq!(says(&mut engine, "-1 0 or . 0 -1 or . 0 0 or . 1 1 or ."), "-1 -1 0 0\nOk.\n");
    assert_eq!(says(&mut engine, "0 not . -1 not . 5 not ."), "-1 0 0\nOk.\n");
    assert_eq!(fails(&mut engine, "1l 1 and"), "Error: Invalid type!\n");
    assert_eq!(fails(&mut engine, "1 0x01 or"), "Error: Invalid type!\n");
    assert_eq!(fails(&mut engine, "\" a \" not"), "Error: Invalid type!\n");
    assert_eq!(fails(&mut engine, "1 and"), "Error: Stack underflow!\n");
    assert_eq!(fails(&mut engine, "not"), "Error: Stack underflow!\n");
}

#[test]
fn conditionals_choose_a_branch() {
    let mut engine = ready();
    says(&mut engine, ": pick if 1 . else 2 . then 3 . ;");
    assert_eq!(says(&mut engine, "-1 pick"), "1 3\nOk.\n");
    assert_eq!(says(&mut engine, "0 pick"), "2 3\nOk.\n");
    assert_eq!(says(&mut engine, "7 pick"), "1 3\nOk.\n");
    assert!(engine.conditional_stack.is_empty());
    assert_eq!(fails(&mut engine, "1l pick"), "Error: Invalid type!\n\n");
    assert_eq!(fails(&mut engine, "pick"), "Error: Stack underflow!\n\n");
}

#[test]
fn a_conditional_inside_a_branch_that_is_not_taken_is_suppressed() {
    let mut engine = ready();
    says(&mut engine, ": nest if 1 . if 2 . else 3 . then else 4 . if 5 . else 6 . then then 7 . ;");
    assert_eq!(says(&mut engine, "-1 -1 nest"), "1 2 7\nOk.\n");
    assert_eq!(says(&mut engine, "0 -1 nest"), "1 3 7\nOk.\n");
    assert_eq!(says(&mut engine, "-1 0 nest"), "4 5 7\nOk.\n");
    assert_eq!(says(&mut engine, "9 0 0 nest ."), "4 6 7 9\nOk.\n");
    says(&mut engine, ": quiet 0 if 1 0 if 2 . else 3 . then 4 . then 5 . ;");
    assert_eq!(says(&mut engine, "quiet"), "5\nOk.\n");
    assert!(engine.main_stack.is_empty());
}

#[test]
fn an_open_conditional_outlives_its_definition() {
    let mut engine = ready();
    assert_eq!(says(&mut engine, ": open 0 if ; open 1 . 2 ."), "\nOk.\n");
    assert_eq!(engine.conditional_stack.len(), 1);
    assert_eq!(engine.conditional_stack[0], Conditional::TakenFalse);
    assert_eq!(says(&mut engine, "4 . then 5 ."), "5\nOk.\n");
    assert!(engine.conditional_stack.is_empty());
}

#[test]
fn counted_loops_count() {
    let mut engine = ready();
    assert_eq!(says(&mut engine, ": count 3 0 for i . next ; count"), "0 1 2\nOk.\n");
    assert_eq!(says(&mut engine, ": evens 10 0 for i . 2 bynext ; evens"), "0 2 4 6 8\nOk.\n");
    assert_eq!(says(&mut engine, ": once 0 5 for i . next ; once"), "5\nOk.\n");
    assert!(engine.loop_stack.is_empty());
    assert_eq!(says(&mut engine, ": top 2147483647 2147483646 for i . next ; top"), "2147483646\nOk.\n");
    assert_eq!(says(&mut engine, ": far 5 0 for i . 2147483647 bynext ; far"), "0\nOk.\n");
    assert_eq!(
        fails(&mut engine, ": low 5 -2147483648 for -1 bynext ; low"),
        "Error: Invalid type!\n\n"
    );
}

#[test]
fn loops_of_both_kinds_nest() {
    let mut engine = ready();
    assert_eq!(
        says(&mut engine, ": grid 2 0 for 2 0 for i . next 9 . next ; grid"),
        "0 1 9 0 1 9\nOk.\n"
    );
    assert_eq!(
        says(&mut engine, ": mixed 2 0 for 2 while dup . 1 - dup do again drop i . next ; mixed"),
        "2 1 0 2 1 1\nOk.\n"
    );
    assert_eq!(
        says(&mut engine, ": inner 3 while dup do 2 0 for i . next 1 - again drop ; inner"),
        "0 1 0 1 0 1\nOk.\n"
    );
    assert_eq!(
        says(&mut engine, ": steps 2 0 for 4 0 for i . 2 bynext next ; steps"),
        "0 2 0 2\nOk.\n"
    );
    assert_eq!(
        says(&mut engine, ": skip 0 while dup do 1 while dup do 1 - again drop again drop 8 . ; skip"),
        "8\nOk.\n"
    );
    assert!(engine.loop_stack.is_empty());
    assert!(engine.main_stack.is_empty());
}

#[test]
fn a_loop_without_its_other_end_fails() {
    let mut engine = ready();
    assert_eq!(fails(&mut engine, ": a again ; a"), "Error Loop control stack underflow!\n\n");
    assert_eq!(fails(&mut engine, ": b 0 do 1 . ; b"), "Error Loop control stack underflow!\n\n");
    assert_eq!(fails(&mut engine, ": c do ; c"), "Error Int stack underflow!\n\n");
    assert_eq!(fails(&mut engine, ": d 1 for ; d"), "Error Int stack underflow!\n\n");
    assert_eq!(fails(&mut engine, ": e for ; e"), "Error Int stack underflow!\n\n");
    assert_eq!(fails(&mut engine, ": f 1l 2 for ; f"), "Error: Invalid type!\n\n");
    assert_eq!(fails(&mut engine, ": g 1l do ; g"), "Error: Invalid type!\n\n");
    assert_eq!(says(&mut engine, ": h 3 0 for ; h"), "\nOk.\n");
    assert_eq!(engine.loop_stack.len(), 1);
    assert_eq!(engine.loop_stack[0], (3, 0));
    assert_eq!(fails(&mut engine, ": k next ; k"), "Error Loop control stack underflow!\n\n");
    assert!(engine.loop_stack.is_empty());
    says(&mut engine, ": h2 3 0 for ; h2");
    assert_eq!(fails(&mut engine, ": m bynext ; m"), "Error Int stack underflow!\n\n");
    assert!(engine.loop_stack.is_empty());
    says(&mut engine, ": h3 1 0 for ; h3");
    assert_eq!(says(&mut engine, ": n next ; n"), "\nOk.\n");
    assert!(engine.loop_stack.is_empty());
}

#[test]
fn variables_keep_values() {
    let mut engine = ready();
    assert_eq!(says(&mut engine, "let a let b @a . @b ."), "0 1\nOk.\n");
    assert_eq!(says(&mut engine, "@b 5 push @b 6l push @b \" seven \" push @b len ."), "3\nOk.\n");
    assert_eq!(says(&mut engine, "@b 0 get . @b 1l get . @b 0x02 get . @b len ."), "5 6 seven 3\nOk.\n");
    assert_eq!(says(&mut engine, "@b 1 9 set @b 1 get . @b pop . @b pop . @b pop ."), "9 seven 9 5\nOk.\n");
    assert_eq!(fails(&mut engine, "@b pop"), "Error: Stack underflow!\n");
    assert_eq!(says(&mut engine, "let a @b . @a ."), "0 1\nOk.\n");
    assert_eq!(engine.variable_stack.len(), 2);
}

#[test]
fn variables_fail_on_bad_handles_and_places() {
    let mut engine = ready();
    assert_eq!(fails(&mut engine, "@nobody"), "Error: Variable not defined!\n");
    says(&mut engine, "let a @a 1 push");
    assert_eq!(fails(&mut engine, "@a 1 get"), "Error: Varibale index out of range!\n");
    assert_eq!(fails(&mut engine, "@a -1 get"), "Error: Varibale index out of range!\n");
    assert_eq!(fails(&mut engine, "@a -1l get"), "Error: Varibale index out of range!\n");
    assert_eq!(fails(&mut engine, "@a 1 5 set"), "Error: Varibale index out of range!\n");
    assert_eq!(fails(&mut engine, "@a -1 5 set"), "Error: Varibale index out of range!\n");
    assert_eq!(fails(&mut engine, "@a 0l 5 set"), "Error: Invalid type!\n");
    assert_eq!(fails(&mut engine, "@a \" x \" get"), "Error: Invalid type!\n");
    assert_eq!(fails(&mut engine, "1l 5 push"), "Error: Invalid type!\n");
    assert_eq!(fails(&mut engine, "1l pop"), "Error: Invalid type!\n");
    assert_eq!(fails(&mut engine, "1l len"), "Error: Invalid type!\n");
    assert_eq!(fails(&mut engine, "1l 0 get"), "Error: Invalid type!\n");
    assert_eq!(fails(&mut engine, "7 5 push"), "Error: Variable not defined!\n");
    assert_eq!(fails(&mut engine, "-1 5 push"), "Error: Variable not defined!\n");
    assert_eq!(fails(&mut engine, "7 pop"), "Error: Variable not defined!\n");
    assert_eq!(fails(&mut engine, "7 len"), "Error: Variable not defined!\n");
    assert_eq!(fails(&mut engine, "7 0 get"), "Error: Variable not defined!\n");
    assert_eq!(fails(&mut engine, "7 0 1 set"), "Error: Variable not defined!\n");
    assert_eq!(fails(&mut engine, "5 push"), "Error: Stack underflow!\n");
    assert_eq!(fails(&mut engine, "pop"), "Error: Stack underflow!\n");
    assert_eq!(fails(&mut engine, "len"), "Error: Stack underflow!\n");
    assert_eq!(fails(&mut engine, "0 get"), "Error: Stack underflow!\n");
    assert_eq!(fails(&mut engine, "0 1 set"), "Error: Stack underflow!\n");
    assert!(engine.main_stack.is_empty());
}

#[test]
fn let_at_the_end_of_a_line_names_nothing() {
    let mut engine = ready();
    assert_eq!(says(&mut engine, "let"), "\nOk.\n");
    assert_eq!(engine.variable_stack.len(), 1);
    assert!(engine.variable_stack[0].name.is_empty());
    assert_eq!(says(&mut engine, "@ ."), "0\nOk.\n");
}

#[test]
fn a_word_that_begins_a_definition_runs_it() {
    let mut engine = ready();
    says(&mut engine, ": square dup * ;");
    assert_eq!(says(&mut engine, "3 square ."), "9\nOk.\n");
    assert_eq!(fails(&mut engine, "3 squ"), "Error: Unknown word: are\n\n");
    assert_eq!(fails(&mut engine, "3 s"), "Error: Unknown word: quare\n\n");
    says(&mut engine, ": sq 1 . ;");
    assert_eq!(engine.compiled_words.len(), 1);
    assert_eq!(says(&mut engine, "sq"), "1\nOk.\n");
    assert_eq!(fails(&mut engine, "3 square"), "Error: Unknown word: square\n");
}

#[test]
fn a_definition_comes_before_the_words_after_it_in_the_table() {
    let mut engine = ready();
    says(&mut engine, ": bye2 5 . ;");
    assert_eq!(says(&mut engine, "bye"), "5\nOk.\n");
    assert!(engine.running);
    assert!(matches!(engine.main_stack[..], [Types::Int(2)]));
    says(&mut engine, "drop : 12 7 . ;");
    assert_eq!(says(&mut engine, "12"), "7\nOk.\n");
    assert!(engine.main_stack.is_empty());
    assert_eq!(says(&mut engine, "34 ."), "34\nOk.\n");
    says(&mut engine, ": dupe 1 ;");
    assert_eq!(says(&mut engine, "8 dup . ."), "8 8\nOk.\n");
}

#[test]
fn a_definition_without_a_name_is_not_stored() {
    let mut engine = ready();
    assert_eq!(says(&mut engine, ": ;"), "\nOk.\n");
    assert!(engine.compiled_words.is_empty());
    assert!(engine.mode_normal());
    assert_eq!(says(&mut engine, ": empty ; empty 1 ."), "1\nOk.\n");
}

#[test]
fn definitions_call_definitions() {
    let mut engine = ready();
    says(&mut engine, ": double 2 * ; : quad double double ; : show dup . ;");
    assert_eq!(says(&mut engine, "3 quad show show ."), "12 12 12\nOk.\n");
    assert_eq!(says(&mut engine, ": fact dup 1 < if dup 1 - fact * then ; 10 fact ."), "3628800\nOk.\n");
    assert!(engine.contexts.is_empty());
}

#[test]
fn bye_ends_the_session_or_the_definition() {
    let mut engine = ready();
    says(&mut engine, ": early 1 . bye 2 . ;");
    assert_eq!(says(&mut engine, "early 3 ."), "1 3\nOk.\n");
    assert!(engine.running);
    assert_eq!(says(&mut engine, "4 . bye 5 ."), "4 5\nOk.\n");
    assert!(!engine.running);
}

#[test]
fn silent_takes_a_flag() {
    let mut engine = ready();
    assert_eq!(says(&mut engine, "5 silent 1 ."), "1\nOk.\n");
    assert!(!engine.silent);
    assert_eq!(says(&mut engine, "-1 silent 1 ."), "1");
    assert!(engine.silent);
    assert_eq!(fails(&mut engine, "-1l silent"), "Error: Invalid type!\n");
    assert_eq!(fails(&mut engine, "silent"), "Error: Stack underflow!\n");
    assert_eq!(fails(&mut engine, "1 input"), "Error: Invalid type!\n");
    assert_eq!(fails(&mut engine, "input"), "Error: Stack underflow!\n");
}

#[test]
fn emit_and_nl_write_characters() {
    let mut engine = ready();
    assert_eq!(says(&mut engine, "0x41 emit 0x62 emit"), "A b\nOk.\n");
    assert_eq!(says(&mut engine, "1 . nl 2 ."), "1 \n 2\nOk.\n");
    assert_eq!(says(&mut engine, "0xe9 emit"), "\u{e9}\nOk.\n");
    assert_eq!(fails(&mut engine, "65 emit"), "Error: Invalid type!\n");
    assert_eq!(fails(&mut engine, "emit"), "Error: Stack underflow!\n");
}

#[test]
fn comments_are_passed_over() {
    let mut engine = ready();
    assert_eq!(says(&mut engine, "1 ( 2 . nope \" ) . ( ) 3 ."), "1 3\nOk.\n");
    assert_eq!(says(&mut engine, "4 ( not yet"), "\nOk.\n");
    assert_eq!(engine.mode, EngineMode::COMMENT);
    assert!(engine.mode_comment());
    assert_eq!(says(&mut engine, "still not ) ."), "4\nOk.\n");
    assert_eq!(fails(&mut engine, ")"), "Error: Unknown word: )\n");
}

#[test]
fn whole_numbers_are_written_in_three_ways() {
    let mut engine = ready();
    assert_eq!(
        says(&mut engine, "-12 . +12 . 007 . 12l . -12L . 0x0a . 0xFf . 0x+f ."),
        "-12 12 7 12 -12 10 255 15\nOk.\n"
    );
    assert_eq!(says(&mut engine, "2147483647 . -2147483648 ."), "2147483647 -2147483648\nOk.\n");
    assert_eq!(
        says(&mut engine, "9223372036854775807l . -9223372036854775808l ."),
        "9223372036854775807 -9223372036854775808\nOk.\n"
    );
    assert_eq!(fails(&mut engine, "0xzz"), "Error: Type conversion failed!\n");
    assert_eq!(fails(&mut engine, "0x-1"), "Error: Type conversion failed!\n");
    assert_eq!(fails(&mut engine, "0x1"), "Error: Unknown word: 0x1\n");
    assert_eq!(fails(&mut engine, "9223372036854775808l"), "Error: Unknown word: 9223372036854775808l\n");
    assert_eq!(fails(&mut engine, "12x"), "Error: Unknown word: 12x\n");
    assert_eq!(fails(&mut engine, "--1"), "Error: Unknown word: --1\n");
    assert_eq!(fails(&mut engine, "l"), "Error: Unknown word: l\n");
}

#[test]
fn values_turn_into_other_kinds() {
    let mut engine = ready();
    assert_eq!(
        says(&mut engine, "300 to_byte . -1 to_byte . 4294967298l to_int . 2147483648l to_int . -1l to_byte ."),
        "44 255 2 -2147483648 255\nOk.\n"
    );
    assert_eq!(says(&mut engine, "5 to_int . 0x05 to_int . 5 to_long . 0x05 to_long . 0x05 to_byte ."), "5 5 5 5 5\nOk.\n");
    says(&mut engine, "5 to_long 0x05 to_int 5 to_byte");
    assert!(matches!(engine.main_stack[..], [Types::Long(5), Types::Int(5), Types::Byte(5)]));
    says(&mut engine, "drop drop drop 12 to_str -12l to_str 0xff to_str \" t \" to_str");
    assert!(matches!(&engine.main_stack[..], [Types::Str(a), Types::Str(b), Types::Str(c), Types::Str(d)]
        if a == "12" && b == "-12" && c == "255" && d == "t"));
    says(&mut engine, "drop drop drop drop");
    assert_eq!(
        says(&mut engine, "\" 42 \" to_int . \" -42 \" to_long . \" ff \" to_byte . \" +7 \" to_int ."),
        "42 -42 255 7\nOk.\n"
    );
    assert_eq!(fails(&mut engine, "\" 4 2 \" to_int"), "Error: Type conversion failed!\n");
    assert_eq!(fails(&mut engine, "\" 2147483648 \" to_int"), "Error: Type conversion failed!\n");
    assert_eq!(fails(&mut engine, "\" 100 \" to_byte"), "Error: Type conversion failed!\n");
    assert_eq!(fails(&mut engine, "\" -1 \" to_byte"), "Error: Type conversion failed!\n");
    assert_eq!(fails(&mut engine, "\" x \" to_long"), "Error: Type conversion failed!\n");
    assert_eq!(fails(&mut engine, "to_int"), "Error: Stack underflow!\n");
}

#[test]
fn texts_split() {
    let mut engine = ready();
    assert_eq!(says(&mut engine, "\" a,b,,c \" \" , \" split . . . ."), "c b a\nOk.\n");
    assert_eq!(engine.main_stack.len(), 0);
    says(&mut engine, "\" a--b- \" \" -- \" split");
    assert!(matches!(&engine.main_stack[..], [Types::Str(a), Types::Str(b)] if a == "a" && b == "b-"));
    says(&mut engine, "drop drop \" abc \" \" x \" split");
    assert!(matches!(&engine.main_stack[..], [Types::Str(a)] if a == "abc"));
    says(&mut engine, "drop \" ab \" \" \" split");
    assert!(matches!(&engine.main_stack[..], [Types::Str(a), Types::Str(b), Types::Str(c), Types::Str(d)]
        if a == "" && b == "a" && c == "b" && d == ""));
    says(&mut engine, "drop drop drop drop \" aa \" \" a \" split");
    assert!(matches!(&engine.main_stack[..], [Types::Str(a), Types::Str(b), Types::Str(c)]
        if a == "" && b == "" && c == ""));
    says(&mut engine, "drop drop drop \"  one   two  \" wsplit");
    assert!(matches!(&engine.main_stack[..], [Types::Str(a), Types::Str(b)] if a == "one" && b == "two"));
    says(&mut engine, "drop drop \" \" wsplit");
    assert!(engine.main_stack.is_empty());
    assert_eq!(fails(&mut engine, "1 \" a \" split"), "Error: Invalid type!\n");
    assert_eq!(fails(&mut engine, "\" a \" split"), "Error: Stack underflow!\n");
    assert_eq!(fails(&mut engine, "1 wsplit"), "Error: Invalid type!\n");
    assert_eq!(fails(&mut engine, "1 \" a \" concat"), "Error: Invalid type!\n");
    assert_eq!(fails(&mut engine, "concat"), "Error: Stack underflow!\n");
}

#[test]
fn words_can_be_called_on_an_engine() {
    let mut engine = Engine::new();
    assert_eq!(
        sorth::standard::loop_ops::next_word(&mut engine),
        Err("Error Loop control stack underflow!".to_string())
    );
    assert_eq!(
        sorth::standard::loop_ops::bynext_word(&mut engine),
        Err("Error Loop control stack underflow!".to_string())
    );
    assert_eq!(
        sorth::standard::conditional_ops::then_word(&mut engine),
        Err("Error Conditional stack underflow!".to_string())
    );
    assert_eq!(
        sorth::standard::stack_ops::dot(&mut engine),
        Err("Error: Stack underflow!".to_string())
    );
    assert_eq!(sorth::standard::conditional_ops::if_word(&mut engine), Err("Error: Stack underflow!".to_string()));
    engine.main_stack.push(Types::Int(0));
    assert_eq!(sorth::standard::conditional_ops::if_word(&mut engine), Ok("".to_string()));
    assert_eq!(sorth::standard::conditional_ops::current_cond(&engine), Conditional::TakenFalse);
    assert_eq!(sorth::standard::conditional_ops::if_word(&mut engine), Ok("".to_string()));
    assert_eq!(sorth::standard::conditional_ops::current_cond(&engine), Conditional::Suppressed);
    assert_eq!(sorth::standard::conditional_ops::else_word(&mut engine), Ok("".to_string()));
    assert_eq!(sorth::standard::conditional_ops::current_cond(&engine), Conditional::Suppressed);
    assert_eq!(sorth::standard::conditional_ops::then_word(&mut engine), Ok("".to_string()));
    assert_eq!(sorth::standard::conditional_ops::else_word(&mut engine), Ok("".to_string()));
    assert_eq!(sorth::standard::conditional_ops::current_cond(&engine), Conditional::TakenTrue);
    assert_eq!(sorth::standard::conditional_ops::else_word(&mut engine), Ok("".to_string()));
    assert_eq!(sorth::standard::conditional_ops::current_cond(&engine), Conditional::Suppressed);
    engine.main_stack.push(Types::Int(4));
    engine.main_stack.push(Types::Long(6));
    assert_eq!(sorth::standard::math_ops::add(&mut engine), Ok("".to_string()));
    assert_eq!(sorth::standard::stack_ops::peek(&mut engine), Ok("10".to_string()));
    assert!(matches!(engine.main_stack[..], [Types::Long(10)]));
    assert_eq!(engine.get_curr_word(), "");
    assert!(!engine.get_compiled_exec());
}

#[test]
fn a_table_of_ones_own() {
    struct Sums {
        words: Vec<(WordSymbol, WordDefinition)>,
    }
    impl WordList for Sums {
        fn new() -> Self {
            Sums {
                words: vec![
                    (WordSymbol::Keyword(Keyword::Dot), WordDefinition::Add),
                    (WordSymbol::Keyword(Keyword::Plus), WordDefinition::Dot),
                    (WordSymbol::IntLiteral, WordDefinition::IntNumber),
                    (WordSymbol::IntLiteral, WordDefinition::Dup),
                ],
            }
        }

        fn get_words(&self) -> Vec<(WordSymbol, WordDefinition)> {
            self.words.clone()
        }
    }
    let mut engine = Engine::new();
    engine.import_word_list(Sums::new());
    assert_eq!(engine.words.len(), 4);
    assert_eq!(engine.eval("1 2 . +".to_string()), Ok("3\nOk.\n".to_string()));
    assert_eq!(engine.eval("dup".to_string()), Err("Error: Unknown word: dup\n".to_string()));
    engine.import_word_list(Standard::new());
    assert_eq!(engine.words.len(), 70);
    assert_eq!(engine.eval("4 dup . +".to_string()), Ok("8\nOk.\n".to_string()));
}

#[test]
fn the_standard_table_is_in_order() {
    let words = Standard::new().get_words();
    assert_eq!(words.len(), 66);
    assert_eq!(words[0], (WordSymbol::Keyword(Keyword::If), WordDefinition::IfWord));
    assert_eq!(words[3], (WordSymbol::ConditionalSkip, WordDefinition::ConditionalSkip));
    assert_eq!(words[18], (WordSymbol::Keyword(Keyword::Plus), WordDefinition::Add));
    assert_eq!(words[39], (WordSymbol::Defined, WordDefinition::RunCompiled));
    assert_eq!(words[40], (WordSymbol::Keyword(Keyword::Bye), WordDefinition::Bye));
    assert_eq!(words[56], (WordSymbol::IntLiteral, WordDefinition::IntNumber));
    assert_eq!(words[65], (WordSymbol::CommentEnd, WordDefinition::CommentToggle));
    assert_eq!(Keyword::TwoDup.text(), "2dup");
    assert_eq!(Keyword::ToStr.text(), "to_str");
}

#[test]
fn control_flow_works_in_a_line() {
    let mut engine = ready();
    assert_eq!(says(&mut engine, "0 if 1 . else 2 . then 3 ."), "2 3\nOk.\n");
    assert_eq!(says(&mut engine, "3 0 for i . next"), "0 1 2 \nOk.\n");
    assert_eq!(says(&mut engine, "2 while dup . 1 - dup do again drop"), "2 1 \nOk.\n");
    assert_eq!(fails(&mut engine, "i"), "Error Loop control stack underflow!\n");
    assert_eq!(fails(&mut engine, "again"), "Error Loop control stack underflow!\n");
    assert_eq!(fails(&mut engine, "else"), "Error Conditional stack underflow!\n");
}
