//! The arithmetic question that a destroyed player answers to be revived.
use crate::random::draw_range;
use crate::text::{
    byte_count, byte_len, decimal, is_digit, parse_i32, parsed_i32, pop_char, push_char,
    push_decimal,
};
use vstd::prelude::*;
use vstd::string::StringExecFns;

verus! {

/// The operation of a question.
#[derive(Clone, Copy, Debug, PartialEq, Eq, Structural)]
pub enum MathOperation {
    Addition,
    Subtraction,
    Multiplication,
}

impl MathOperation {
    /// The operation that a draw of `index` selects: the operations in order, the last
    /// one for every index from two up.
    pub open spec fn of_index(index: int) -> MathOperation {
        if index == 0 {
            MathOperation::Addition
        } else if index == 1 {
            MathOperation::Subtraction
        } else {
            MathOperation::Multiplication
        }
    }

    /// The result of the operation on `a` and `b`.
    pub open spec fn apply(&self, a: int, b: int) -> int {
        match self {
            MathOperation::Addition => a + b,
            MathOperation::Subtraction => a - b,
            MathOperation::Multiplication => a * b,
        }
    }

    /// `a` and `b` are operands that a question of this operation may have: two numbers
    /// of two digits to add, a smaller number of two digits to subtract from one of at
    /// least 20, or two factors from 2 to 9.
    pub open spec fn admits(&self, a: int, b: int) -> bool {
        match self {
            MathOperation::Addition => 10 <= a < 100 && 10 <= b < 100,
            MathOperation::Subtraction => 20 <= a < 100 && 10 <= b < a,
            MathOperation::Multiplication => 2 <= a < 10 && 2 <= b < 10,
        }
    }

    /// The sign that stands for the operation in a question.
    pub open spec fn symbol(&self) -> Seq<char> {
        match self {
            MathOperation::Addition => "+"@,
            MathOperation::Subtraction => "-"@,
            MathOperation::Multiplication => "\u{c3}\u{2014}"@,
        }
    }

    /// The operation that a draw of `index` selects.
    pub fn from_index(index: i64) -> (op: Self)
        ensures
            op == Self::of_index(index as int),
    {
        match index {
            0 => MathOperation::Addition,
            1 => MathOperation::Subtraction,
            _ => MathOperation::Multiplication,
        }
    }
}

/// A question, the answer typed so far, and the verdict on the answer handed in.
#[derive(Clone, Debug, PartialEq, Eq)]
pub struct MathChallenge {
    pub num1: i32,
    pub num2: i32,
    pub operation: MathOperation,
    pub correct_answer: i32,
    /// The answer typed so far.
    pub user_input: String,
    /// An answer that writes a number was handed in.
    pub is_completed: bool,
    /// The last answer handed in was the right one.
    pub is_correct: bool,
}

impl MathChallenge {
    /// A question that nobody has answered yet, with admissible operands and the
    /// right answer on record.
    pub open spec fn fresh(&self) -> bool {
        &&& self.operation.admits(self.num1 as int, self.num2 as int)
        &&& self.correct_answer == self.operation.apply(self.num1 as int, self.num2 as int)
        &&& self.user_input@ == Seq::<char>::empty()
        &&& !self.is_completed
        &&& !self.is_correct
    }

    /// Both challenges ask the same question and record the same answer to it.
    pub open spec fn same_question(&self, other: &MathChallenge) -> bool {
        &&& self.num1 == other.num1
        &&& self.num2 == other.num2
        &&& self.operation == other.operation
        &&& self.correct_answer == other.correct_answer
    }

    /// Both challenges have been judged alike, or not at all.
    pub open spec fn same_verdict(&self, other: &MathChallenge) -> bool {
        &&& self.is_completed == other.is_completed
        &&& self.is_correct == other.is_correct
    }

    /// The text of the question.
    pub open spec fn question(&self) -> Seq<char> {
        decimal(self.num1 as int) + " "@ + self.operation.symbol() + " "@ + decimal(
            self.num2 as int,
        ) + " = ?"@
    }

    /// The question on the operands `a` and `b`.
    pub fn new(operation: MathOperation, a: i32, b: i32) -> (c: Self)
        requires
            operation.admits(a as int, b as int),
        ensures
            c.fresh(),
            c.operation == operation,
            c.num1 == a,
            c.num2 == b,
    {
        let correct_answer = match operation {
            MathOperation::Addition => a + b,
            MathOperation::Subtraction => a - b,
            MathOperation::Multiplication => {
                assert(0 <= a * b <= 81) by (nonlinear_arith)
                    requires
                        2 <= a < 10,
                        2 <= b < 10,
                ;
                a * b
            },
        };
        Self {
            num1: a,
            num2: b,
            operation,
            correct_answer,
            user_input: String::new(),
            is_completed: false,
            is_correct: false,
        }
    }

    /// A question whose operation and operands are drawn at random.
    pub fn new_random(rng: &mut rand::rngs::StdRng) -> (c: Self)
        ensures
            c.fresh(),
    {
        let operation = MathOperation::from_index(draw_range(rng, 0, 3));
        match operation {
            MathOperation::Addition => {
                let a = draw_range(rng, 10, 100);
                let b = draw_range(rng, 10, 100);
                Self::new(operation, a as i32, b as i32)
            },
            MathOperation::Subtraction => {
                let a = draw_range(rng, 20, 100);
                let b = draw_range(rng, 10, a);
                Self::new(operation, a as i32, b as i32)
            },
            MathOperation::Multiplication => {
                let a = draw_range(rng, 2, 10);
                let b = draw_range(rng, 2, 10);
                Self::new(operation, a as i32, b as i32)
            },
        }
    }

    /// The question as text, such as `12 + 30 = ?`.
    pub fn get_question_text(&self) -> (text: String)
        ensures
            text@ == self.question(),
    {
        let op_symbol = match self.operation {
            MathOperation::Addition => "+",
            MathOperation::Subtraction => "-",
            MathOperation::Multiplication => "\u{c3}\u{2014}",
        };
        let mut text = String::new();
        push_decimal(&mut text, self.num1);
        text.append(" ");
        text.append(op_symbol);
        text.append(" ");
        push_decimal(&mut text, self.num2);
        text.append(" = ?");
        proof {
            assert(text@ =~= self.question());
        }
        text
    }

    /// Types one more digit of the answer. Anything but an ASCII digit is ignored, and
    /// so is every digit once the answer takes four bytes.
    pub fn add_digit(&mut self, digit: char)
        ensures
            final(self).user_input@ == if byte_len(old(self).user_input@) < 4 && is_digit(digit) {
                old(self).user_input@.push(digit)
            } else {
                old(self).user_input@
            },
            final(self).same_question(old(self)),
            final(self).same_verdict(old(self)),
    {
        if byte_count(self.user_input.as_str()) < 4 && '0' <= digit && digit <= '9' {
            push_char(&mut self.user_input, digit);
        }
    }

    /// Deletes the last character of the answer, if there is one.
    pub fn remove_digit(&mut self)
        ensures
            final(self).user_input@ == if old(self).user_input@.len() > 0 {
                old(self).user_input@.drop_last()
            } else {
                old(self).user_input@
            },
            final(self).same_question(old(self)),
            final(self).same_verdict(old(self)),
    {
        let _ = pop_char(&mut self.user_input);
    }

    /// Hands the typed answer in. A text that writes a number completes the challenge
    /// and is judged; any other text counts as wrong and changes nothing.
    pub fn submit_answer(&mut self) -> (accepted: bool)
        ensures
            accepted == (parsed_i32(old(self).user_input@) == Some(old(self).correct_answer)),
            match parsed_i32(old(self).user_input@) {
                Some(answer) => final(self).is_completed && final(self).is_correct == (answer
                    == old(self).correct_answer),
                None => final(self).same_verdict(old(self)),
            },
            final(self).user_input@ == old(self).user_input@,
            final(self).same_question(old(self)),
    {
        match parse_i32(self.user_input.as_str()) {
            Some(answer) => {
                self.is_correct = answer == self.correct_answer;
                self.is_completed = true;
                self.is_correct
            },
            None => false,
        }
    }

    /// The answer typed so far.
    pub fn get_user_answer(&self) -> (answer: &str)
        ensures
            answer@ == self.user_input@,
    {
        self.user_input.as_str()
    }
}

} // verus!
