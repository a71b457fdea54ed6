use rand::rngs::StdRng;
use rand::SeedableRng;
use tank_battle::math_challenge::{MathChallenge, MathOperation};
use tank_battle::text::{push_decimal, push_digits};

#[test]
fn operations_follow_the_index() {
    assert_eq!(MathOperation::from_index(0), MathOperation::Addition);
    assert_eq!(MathOperation::from_index(1), MathOperation::Subtraction);
    assert_eq!(MathOperation::from_index(2), MathOperation::Multiplication);
    assert_eq!(MathOperation::from_index(9), MathOperation::Multiplication);
}

#[test]
fn a_new_challenge_records_the_right_answer() {
    let c = MathChallenge::new(MathOperation::Addition, 12, 30);
    assert_eq!((c.num1, c.num2, c.correct_answer), (12, 30, 42));
    assert_eq!(c.user_input, "");
    assert!(!c.is_completed && !c.is_correct);
    assert_eq!(MathChallenge::new(MathOperation::Subtraction, 50, 13).correct_answer, 37);
    assert_eq!(MathChallenge::new(MathOperation::Multiplication, 7, 8).correct_answer, 56);
}

#[test]
fn random_challenges_keep_to_their_ranges() {
    let mut rng = StdRng::seed_from_u64(11);
    let mut seen = [false; 3];
    for _ in 0..500 {
        let c = MathChallenge::new_random(&mut rng);
        assert_eq!(c.user_input, "");
        assert!(!c.is_completed && !c.is_correct);
        match c.operation {
            MathOperation::Addition => {
                seen[0] = true;
                assert!((10..100).contains(&c.num1) && (10..100).contains(&c.num2));
                assert_eq!(c.correct_answer, c.num1 + c.num2);
            }
            MathOperation::Subtraction => {
                seen[1] = true;
                assert!((20..100).contains(&c.num1) && (10..c.num1).contains(&c.num2));
                assert_eq!(c.correct_answer, c.num1 - c.num2);
            }
            MathOperation::Multiplication => {
                seen[2] = true;
                assert!((2..10).contains(&c.num1) && (2..10).contains(&c.num2));
                assert_eq!(c.correct_answer, c.num1 * c.num2);
            }
        }
    }
    assert_eq!(seen, [true; 3]);
}

#[test]
fn question_text_of_each_operation() {
    assert_eq!(
        MathChallenge::new(MathOperation::Addition, 12, 30).get_question_text(),
        "12 + 30 = ?"
    );
    assert_eq!(
        MathChallenge::new(MathOperation::Subtraction, 99, 10).get_question_text(),
        "99 - 10 = ?"
    );
    assert_eq!(
        MathChallenge::new(MathOperation::Multiplication, 7, 8).get_question_text(),
        "7 \u{c3}\u{2014} 8 = ?"
    );
}

#[test]
fn question_text_of_numbers_set_by_hand() {
    let mut c = MathChallenge::new(MathOperation::Addition, 12, 30);
    c.num1 = -5;
    c.num2 = 0;
    assert_eq!(c.get_question_text(), "-5 + 0 = ?");
    c.num1 = i32::MIN;
    c.num2 = i32::MAX;
    assert_eq!(c.get_question_text(), "-2147483648 + 2147483647 = ?");
}

#[test]
fn decimal_text_is_written_digit_by_digit() {
    let mut s = String::from("x");
    push_digits(&mut s, 0);
    push_digits(&mut s, 907);
    push_decimal(&mut s, -40);
    push_digits(&mut s, u32::MAX);
    assert_eq!(s, "x0907-404294967295");
}

#[test]
fn digits_are_typed_up_to_four() {
    let mut c = MathChallenge::new(MathOperation::Addition, 12, 30);
    for d in ['1', '2', '3', '4', '5'] {
        c.add_digit(d);
    }
    assert_eq!(c.get_user_answer(), "1234");
}

#[test]
fn anything_but_an_ascii_digit_is_ignored() {
    let mut c = MathChallenge::new(MathOperation::Addition, 12, 30);
    for d in ['a', '-', '+', ' ', '\u{663}', '/', ':'] {
        c.add_digit(d);
    }
    assert_eq!(c.get_user_answer(), "");
    c.add_digit('0');
    c.add_digit('9');
    assert_eq!(c.get_user_answer(), "09");
}

#[test]
fn the_limit_of_four_counts_bytes() {
    let mut c = MathChallenge::new(MathOperation::Addition, 12, 30);
    c.user_input = String::from("\u{e9}1");
    c.add_digit('2');
    assert_eq!(c.get_user_answer(), "\u{e9}12");
    c.add_digit('3');
    assert_eq!(c.get_user_answer(), "\u{e9}12");
}

#[test]
fn remove_digit_deletes_from_the_end() {
    let mut c = MathChallenge::new(MathOperation::Addition, 12, 30);
    c.add_digit('4');
    c.add_digit('2');
    c.remove_digit();
    assert_eq!(c.get_user_answer(), "4");
    c.remove_digit();
    assert_eq!(c.get_user_answer(), "");
    c.remove_digit();
    assert_eq!(c.get_user_answer(), "");
}

#[test]
fn the_right_answer_is_accepted() {
    let mut c = MathChallenge::new(MathOperation::Addition, 12, 30);
    c.add_digit('4');
    c.add_digit('2');
    assert!(c.submit_answer());
    assert!(c.is_completed && c.is_correct);
    assert_eq!(c.get_user_answer(), "42");
}

#[test]
fn the_right_answer_with_leading_zeros_is_accepted() {
    let mut c = MathChallenge::new(MathOperation::Addition, 12, 30);
    for d in ['0', '0', '4', '2'] {
        c.add_digit(d);
    }
    assert!(c.submit_answer());
}

#[test]
fn a_wrong_answer_completes_the_challenge_as_incorrect() {
    let mut c = MathChallenge::new(MathOperation::Addition, 12, 30);
    c.add_digit('4');
    c.add_digit('3');
    assert!(!c.submit_answer());
    assert!(c.is_completed);
    assert!(!c.is_correct);
}

#[test]
fn an_empty_answer_is_rejected_and_changes_nothing() {
    let mut c = MathChallenge::new(MathOperation::Addition, 12, 30);
    let before = c.clone();
    assert!(!c.submit_answer());
    assert_eq!(c, before);
}

#[test]
fn text_that_is_no_number_is_rejected_and_changes_nothing() {
    for text in ["4 2", "x", "-", "+", "4.2", "99999999999", " 42", "42 ", "--42", "4\u{662}"] {
        let mut c = MathChallenge::new(MathOperation::Addition, 12, 30);
        c.user_input = String::from(text);
        let before = c.clone();
        assert!(!c.submit_answer(), "{}", text);
        assert_eq!(c, before);
    }
}

#[test]
fn a_signed_answer_is_read_as_a_number() {
    let mut c = MathChallenge::new(MathOperation::Addition, 12, 30);
    c.user_input = String::from("+42");
    assert!(c.submit_answer());
    let mut c = MathChallenge::new(MathOperation::Addition, 12, 30);
    c.correct_answer = -42;
    c.user_input = String::from("-42");
    assert!(c.submit_answer());
    let mut c = MathChallenge::new(MathOperation::Addition, 12, 30);
    c.correct_answer = i32::MIN;
    c.user_input = String::from("-2147483648");
    assert!(c.submit_answer());
    let mut c = MathChallenge::new(MathOperation::Addition, 12, 30);
    c.correct_answer = i32::MAX;
    c.user_input = String::from("2147483648");
    assert!(!c.submit_answer());
    assert!(!c.is_completed);
}

#[test]
fn an_earlier_verdict_is_replaced_by_the_next_submission() {
    let mut c = MathChallenge::new(MathOperation::Addition, 12, 30);
    c.add_digit('4');
    assert!(!c.submit_answer());
    c.add_digit('2');
    assert!(c.submit_answer());
    assert!(c.is_completed && c.is_correct);
}
