//! What the commands of the terminal leave on the screen.
//!
//! The screen is taken as lines of characters, counted from the line of the
//! prompt, and a cursor. Colours and weights are left out, and so is what a
//! terminal does with a line that is longer than it is wide.

use crate::completions::Selection;
use crate::context::Prompt;
use crate::terminal::{
    candidate_paints, clipped, prompt_paints, prompt_size, wipe_paints, Color, Paint, Screen,
};
use vstd::prelude::*;

verus! {

/// The lines of a screen and the place of its cursor. A line that `rows` does
/// not hold is empty; line 0 is the line of the prompt, and the lines below it
/// count upwards.
pub struct Display {
    pub rows: Map<int, Seq<char>>,
    pub row: int,
    pub column: int,
}

/// `line` once `text` is printed over it from `column` on: what stood before
/// `column` stays, with blanks up to `column` where the line was shorter, and
/// so does what stood behind the text.
pub open spec fn printed(line: Seq<char>, column: int, text: Seq<char>) -> Seq<char> {
    let head = if column <= line.len() {
        line.subrange(0, column)
    } else {
        line + Seq::new((column - line.len()) as nat, |i: int| ' ')
    };
    let tail = if column + text.len() < line.len() {
        line.subrange(column + text.len(), line.len() as int)
    } else {
        Seq::empty()
    };
    head + text + tail
}

/// `line` cut off at `column`.
pub open spec fn cut(line: Seq<char>, column: int) -> Seq<char> {
    if 0 <= column < line.len() {
        line.subrange(0, column)
    } else {
        line
    }
}

impl Display {
    /// The characters in line `row`.
    pub open spec fn line(self, row: int) -> Seq<char> {
        if self.rows.dom().contains(row) {
            self.rows[row]
        } else {
            Seq::empty()
        }
    }

    /// The screen with `text` as the line of the cursor.
    pub open spec fn with_line(self, text: Seq<char>) -> Display {
        Display { rows: self.rows.insert(self.row, text), row: self.row, column: self.column }
    }

    /// The screen with the cursor at `row` and `column`.
    pub open spec fn at(self, row: int, column: int) -> Display {
        Display { rows: self.rows, row, column }
    }

    /// The screen after one command.
    pub open spec fn apply(self, paint: Paint) -> Display {
        match paint {
            Paint::MoveToColumn(column) => self.at(self.row, column),
            Paint::MoveUp(lines) => self.at(self.row - lines, self.column),
            Paint::MoveDown(lines) => self.at(self.row + lines, self.column),
            Paint::NewLine => self.at(self.row + 1, self.column),
            Paint::ClearCurrentLine => self.with_line(Seq::empty()),
            Paint::ClearUntilNewLine => self.with_line(cut(self.line(self.row), self.column)),
            Paint::Print(text) => self.with_line(
                printed(self.line(self.row), self.column, text),
            ).at(self.row, self.column + text.len()),
            Paint::SetForegroundColor(_) | Paint::SetBold | Paint::ResetColor | Paint::Flush => self,
        }
    }

    /// The screen after the commands, one after the other.
    pub open spec fn run(self, paints: Seq<Paint>) -> Display
        decreases paints.len(),
    {
        if paints.len() == 0 {
            self
        } else {
            self.run(paints.drop_last()).apply(paints.last())
        }
    }
}

/// Running two lists of commands one after the other is running the one
/// list that they make together.
pub proof fn lemma_run_both(display: Display, first: Seq<Paint>, second: Seq<Paint>)
    ensures
        display.run(first + second) == display.run(first).run(second),
    decreases second.len(),
{
    if second.len() == 0 {
        assert(first + second =~= first);
    } else {
        lemma_run_both(display, first, second.drop_last());
        assert((first + second).drop_last() =~= first + second.drop_last());
        assert((first + second).last() == second.last());
    }
}

/// Running one command is applying it.
pub proof fn lemma_run_one(display: Display, paint: Paint)
    ensures
        display.run(seq![paint]) == display.apply(paint),
{
    assert(seq![paint].drop_last() =~= Seq::<Paint>::empty());
    assert(display.run(seq![paint].drop_last()) == display);
}

/// Running a list with one more command is running the list and applying
/// the command.
pub proof fn lemma_run_push(display: Display, paints: Seq<Paint>, paint: Paint)
    ensures
        display.run(paints.push(paint)) == display.run(paints).apply(paint),
{
    assert(paints.push(paint).drop_last() =~= paints);
}

/// Whether two screens show the same in every line above `low` and below
/// `high`.
pub open spec fn same_outside(before: Display, after: Display, low: int, high: int) -> bool {
    forall|row: int| row < low || row > high ==> #[trigger] after.line(row) == before.line(row)
}

/// `line` up to `column`, with blanks where it is shorter.
pub open spec fn upto(line: Seq<char>, column: int) -> Seq<char> {
    if column <= line.len() {
        line.subrange(0, column)
    } else {
        line + Seq::new((column - line.len()) as nat, |i: int| ' ')
    }
}

/// Running a list of commands behind a first one is applying the first and
/// running the list.
pub proof fn lemma_run_first(display: Display, paint: Paint, rest: Seq<Paint>)
    ensures
        display.run(seq![paint] + rest) == display.apply(paint).run(rest),
{
    lemma_run_both(display, seq![paint], rest);
    lemma_run_one(display, paint);
}

/// What painting the text and the suggestion leaves in the line of the
/// cursor: what stood in front of the text, the part of the text that is
/// shown, the part of the suggestion that is shown, and nothing behind
/// them. The cursor stands behind them, and no other line changes.
pub proof fn lemma_line_paints(display: Display, screen: Screen, prompt: Prompt, columns: int)
    requires
        screen.wf(),
        prompt.line.wf(),
    ensures
        ({
            let after = display.run(screen.line_paints(prompt, columns));
            let shown = screen.window(prompt.line, columns) + screen.overlay(prompt, columns);
            &&& after.row == display.row
            &&& after.column == screen.prompt_start + shown.len()
            &&& after.line(display.row) == upto(display.line(display.row), screen.prompt_start)
                + shown
            &&& same_outside(display, after, display.row, display.row)
        }),
{
    let window = screen.window(prompt.line, columns);
    let overlay = screen.overlay(prompt, columns);
    let start = screen.prompt_start;
    let text = seq![Paint::MoveToColumn(start), Paint::ResetColor, Paint::Print(window)];
    let suggestion = if overlay.len() > 0 {
        seq![Paint::SetForegroundColor(Color::Blue), Paint::Print(overlay), Paint::ResetColor]
    } else {
        Seq::empty()
    };
    let old_line = display.line(display.row);

    let d1 = display.apply(Paint::MoveToColumn(start));
    let d2 = d1.apply(Paint::ResetColor);
    let d3 = d2.apply(Paint::Print(window));
    assert(display.run(text) == d3) by {
        assert(text =~= seq![Paint::MoveToColumn(start)] + seq![
            Paint::ResetColor,
            Paint::Print(window),
        ]);
        lemma_run_first(
            display,
            Paint::MoveToColumn(start),
            seq![Paint::ResetColor, Paint::Print(window)],
        );
        assert(seq![Paint::ResetColor, Paint::Print(window)] =~= seq![Paint::ResetColor] + seq![
            Paint::Print(window),
        ]);
        lemma_run_first(d1, Paint::ResetColor, seq![Paint::Print(window)]);
        lemma_run_one(d2, Paint::Print(window));
    }
    assert(d3.line(display.row) =~= upto(old_line, start) + window + d3.line(
        display.row,
    ).subrange(start + window.len(), d3.line(display.row).len() as int));
    assert(d3.column == start + window.len());

    let d4 = d3.run(suggestion);
    if overlay.len() > 0 {
        let e1 = d3.apply(Paint::SetForegroundColor(Color::Blue));
        let e2 = e1.apply(Paint::Print(overlay));
        let e3 = e2.apply(Paint::ResetColor);
        assert(d4 == e3) by {
            assert(suggestion =~= seq![
                Paint::SetForegroundColor(Color::Blue),
            ] + seq![Paint::Print(overlay), Paint::ResetColor]);
            lemma_run_first(
                d3,
                Paint::SetForegroundColor(Color::Blue),
                seq![Paint::Print(overlay), Paint::ResetColor],
            );
            assert(seq![Paint::Print(overlay), Paint::ResetColor] =~= seq![
                Paint::Print(overlay),
            ] + seq![Paint::ResetColor]);
            lemma_run_first(e1, Paint::Print(overlay), seq![Paint::ResetColor]);
            lemma_run_one(e2, Paint::ResetColor);
        }
    } else {
        assert(d4 == d3);
    }
    assert(d4.row == display.row);
    assert(d4.column == start + window.len() + overlay.len());
    assert(d4.line(display.row).len() >= start + window.len() + overlay.len());
    assert(d4.line(display.row).subrange(0, start + window.len() + overlay.len()) =~= upto(
        old_line,
        start,
    ) + (window + overlay));

    let d5 = d4.apply(Paint::ClearUntilNewLine);
    assert(display.run(screen.line_paints(prompt, columns)) == d5) by {
        lemma_run_both(display, text, suggestion);
        lemma_run_push(display, text + suggestion, Paint::ClearUntilNewLine);
        assert(screen.line_paints(prompt, columns) =~= (text + suggestion).push(
            Paint::ClearUntilNewLine,
        ));
    }
    assert(d5.line(display.row) =~= upto(old_line, start) + (window + overlay));
    assert forall|row: int| row != display.row implies #[trigger] d5.line(row) == display.line(
        row,
    ) by {}
}

/// Wiping `lines` lines leaves them empty and the cursor in the last of
/// them; no other line changes.
pub proof fn lemma_wipe_paints(display: Display, lines: int)
    requires
        0 <= lines,
    ensures
        ({
            let after = display.run(wipe_paints(lines));
            &&& after.row == display.row + lines
            &&& after.column == display.column
            &&& forall|row: int|
                display.row < row <= display.row + lines ==> #[trigger] after.line(row)
                    == Seq::<char>::empty()
            &&& same_outside(display, after, display.row + 1, display.row + lines)
        }),
    decreases lines,
{
    if lines > 0 {
        lemma_wipe_paints(display, lines - 1);
        let before = display.run(wipe_paints(lines - 1));
        let step = seq![Paint::MoveDown(1), Paint::ClearCurrentLine];
        lemma_run_both(display, wipe_paints(lines - 1), step);
        assert(step =~= seq![Paint::MoveDown(1)] + seq![Paint::ClearCurrentLine]);
        lemma_run_first(before, Paint::MoveDown(1), seq![Paint::ClearCurrentLine]);
        lemma_run_one(before.apply(Paint::MoveDown(1)), Paint::ClearCurrentLine);
        let after = before.apply(Paint::MoveDown(1)).apply(Paint::ClearCurrentLine);
        assert(display.run(wipe_paints(lines)) == after);
        assert forall|row: int| display.row < row <= display.row + lines implies #[trigger] after.line(
            row,
        ) == Seq::<char>::empty() by {
            if row < display.row + lines {
                assert(before.line(row) == Seq::<char>::empty());
            }
        }
        assert forall|row: int| row < display.row + 1 || row > display.row + lines implies #[trigger] after.line(
            row,
        ) == display.line(row) by {
            assert(before.line(row) == display.line(row));
        }
    } else {
        assert(wipe_paints(lines) =~= Seq::<Paint>::empty());
    }
}

/// Taking the candidates away leaves the lines that held them empty and
/// puts the cursor back in its line, in `column`; no other line changes.
pub proof fn lemma_clear_paints(display: Display, screen: Screen, column: int)
    requires
        screen.wf(),
    ensures
        ({
            let after = display.run(screen.clear_paints(column));
            &&& after.row == display.row
            &&& after.column == if screen.completion_lines > 0 {
                column
            } else {
                display.column
            }
            &&& forall|row: int|
                display.row < row <= display.row + screen.completion_lines
                    ==> #[trigger] after.line(row) == Seq::<char>::empty()
            &&& same_outside(
                display,
                after,
                display.row + 1,
                display.row + screen.completion_lines,
            )
        }),
{
    let lines = screen.completion_lines;
    if lines > 0 {
        lemma_wipe_paints(display, lines);
        let wiped = display.run(wipe_paints(lines));
        let back = seq![Paint::MoveUp(lines), Paint::MoveToColumn(column)];
        lemma_run_both(display, wipe_paints(lines), back);
        assert(back =~= seq![Paint::MoveUp(lines)] + seq![Paint::MoveToColumn(column)]);
        lemma_run_first(wiped, Paint::MoveUp(lines), seq![Paint::MoveToColumn(column)]);
        lemma_run_one(wiped.apply(Paint::MoveUp(lines)), Paint::MoveToColumn(column));
        let after = wiped.apply(Paint::MoveUp(lines)).apply(Paint::MoveToColumn(column));
        assert(display.run(screen.clear_paints(column)) == after);
        assert forall|row: int| display.row < row <= display.row + lines implies #[trigger] after.line(
            row,
        ) == Seq::<char>::empty() by {
            assert(wiped.line(row) == Seq::<char>::empty());
        }
        assert forall|row: int| row < display.row + 1 || row > display.row + lines implies #[trigger] after.line(
            row,
        ) == display.line(row) by {
            assert(wiped.line(row) == display.line(row));
        }
    } else {
        assert(screen.clear_paints(column) =~= Seq::<Paint>::empty());
    }
}

/// Taking the error away leaves the line below the cursor empty and puts
/// the cursor back in its line, in `column`; no other line changes.
pub proof fn lemma_error_paints(display: Display, screen: Screen, column: int)
    ensures
        ({
            let after = display.run(screen.error_paints(column));
            &&& after.row == display.row
            &&& after.column == if screen.has_error {
                column
            } else {
                display.column
            }
            &&& screen.has_error ==> after.line(display.row + 1) == Seq::<char>::empty()
            &&& same_outside(
                display,
                after,
                display.row + 1,
                if screen.has_error {
                    display.row + 1
                } else {
                    display.row
                },
            )
        }),
{
    if screen.has_error {
        let d1 = display.apply(Paint::MoveDown(1));
        let d2 = d1.apply(Paint::ClearCurrentLine);
        let d3 = d2.apply(Paint::MoveUp(1));
        let paints = screen.error_paints(column);
        assert(paints =~= seq![Paint::MoveDown(1)] + seq![
            Paint::ClearCurrentLine,
            Paint::MoveUp(1),
            Paint::MoveToColumn(column),
        ]);
        lemma_run_first(
            display,
            Paint::MoveDown(1),
            seq![Paint::ClearCurrentLine, Paint::MoveUp(1), Paint::MoveToColumn(column)],
        );
        assert(seq![Paint::ClearCurrentLine, Paint::MoveUp(1), Paint::MoveToColumn(column)]
            =~= seq![Paint::ClearCurrentLine] + seq![Paint::MoveUp(1), Paint::MoveToColumn(column)]);
        lemma_run_first(
            d1,
            Paint::ClearCurrentLine,
            seq![Paint::MoveUp(1), Paint::MoveToColumn(column)],
        );
        assert(seq![Paint::MoveUp(1), Paint::MoveToColumn(column)] =~= seq![Paint::MoveUp(1)]
            + seq![Paint::MoveToColumn(column)]);
        lemma_run_first(d2, Paint::MoveUp(1), seq![Paint::MoveToColumn(column)]);
        lemma_run_one(d3, Paint::MoveToColumn(column));
    }
}

/// Painting the first `count` candidates leaves each of them as a line of
/// its own, in their order below the line of the cursor, and the cursor in
/// the last of these lines; no other line changes.
pub proof fn lemma_candidate_paints(display: Display, list: Selection, count: int)
    requires
        0 <= count <= list.candidates.len(),
    ensures
        ({
            let after = display.run(candidate_paints(list, count));
            &&& after.row == display.row + count
            &&& forall|i: int|
                0 <= i < count ==> #[trigger] after.line(display.row + 1 + i)
                    == list.candidates[i]
            &&& same_outside(display, after, display.row + 1, display.row + count)
        }),
    decreases count,
{
    if count > 0 {
        lemma_candidate_paints(display, list, count - 1);
        let before = display.run(candidate_paints(list, count - 1));
        let candidate = list.candidates[count - 1];
        let line = seq![Paint::NewLine, Paint::MoveToColumn(0), Paint::ClearCurrentLine];
        let text = if list.selected == Some(count - 1) {
            seq![Paint::SetBold, Paint::Print(candidate), Paint::ResetColor]
        } else {
            seq![Paint::Print(candidate)]
        };
        let d1 = before.apply(Paint::NewLine);
        let d2 = d1.apply(Paint::MoveToColumn(0));
        let d3 = d2.apply(Paint::ClearCurrentLine);
        assert(before.run(line) == d3) by {
            assert(line =~= seq![Paint::NewLine] + seq![
                Paint::MoveToColumn(0),
                Paint::ClearCurrentLine,
            ]);
            lemma_run_first(
                before,
                Paint::NewLine,
                seq![Paint::MoveToColumn(0), Paint::ClearCurrentLine],
            );
            assert(seq![Paint::MoveToColumn(0), Paint::ClearCurrentLine] =~= seq![
                Paint::MoveToColumn(0),
            ] + seq![Paint::ClearCurrentLine]);
            lemma_run_first(d1, Paint::MoveToColumn(0), seq![Paint::ClearCurrentLine]);
            lemma_run_one(d2, Paint::ClearCurrentLine);
        }
        let d4 = d3.apply(Paint::Print(candidate));
        assert(d3.run(text) == d4) by {
            if list.selected == Some(count - 1) {
                assert(text =~= seq![Paint::SetBold] + seq![
                    Paint::Print(candidate),
                    Paint::ResetColor,
                ]);
                lemma_run_first(
                    d3,
                    Paint::SetBold,
                    seq![Paint::Print(candidate), Paint::ResetColor],
                );
                assert(seq![Paint::Print(candidate), Paint::ResetColor] =~= seq![
                    Paint::Print(candidate),
                ] + seq![Paint::ResetColor]);
                lemma_run_first(d3, Paint::Print(candidate), seq![Paint::ResetColor]);
                lemma_run_one(d4, Paint::ResetColor);
            } else {
                lemma_run_one(d3, Paint::Print(candidate));
            }
        }
        assert(d4.line(display.row + count) =~= candidate);
        assert(display.run(candidate_paints(list, count)) == d4) by {
            lemma_run_both(display, candidate_paints(list, count - 1), line);
            lemma_run_both(display, candidate_paints(list, count - 1) + line, text);
        }
        assert forall|i: int| 0 <= i < count implies #[trigger] d4.line(display.row + 1 + i)
            == list.candidates[i] by {
            if i < count - 1 {
                assert(before.line(display.row + 1 + i) == list.candidates[i]);
            }
        }
        assert forall|row: int| row < display.row + 1 || row > display.row + count implies #[trigger] d4.line(
            row,
        ) == display.line(row) by {
            assert(before.line(row) == display.line(row));
        }
    } else {
        assert(candidate_paints(list, count) =~= Seq::<Paint>::empty());
    }
}

/// Painting a list leaves its candidates, as far as they are shown, as the
/// lines below the line of the cursor, and puts the cursor back in its line,
/// in `column`; no other line changes.
pub proof fn lemma_list_paints(display: Display, list: Selection, column: int)
    ensures
        ({
            let after = display.run(Screen::list_paints(list, column));
            &&& after.row == display.row
            &&& after.column == column
            &&& forall|i: int|
                0 <= i < Screen::shown(list) ==> #[trigger] after.line(display.row + 1 + i)
                    == list.candidates[i]
            &&& same_outside(display, after, display.row + 1, display.row + Screen::shown(list))
        }),
{
    let shown = Screen::shown(list);
    lemma_candidate_paints(display, list, shown);
    let painted = display.run(candidate_paints(list, shown));
    let back = if shown > 0 {
        seq![Paint::MoveUp(shown), Paint::MoveToColumn(column)]
    } else {
        seq![Paint::MoveToColumn(column)]
    };
    lemma_run_both(display, candidate_paints(list, shown), back);
    let after = painted.run(back);
    if shown > 0 {
        assert(back =~= seq![Paint::MoveUp(shown)] + seq![Paint::MoveToColumn(column)]);
        lemma_run_first(painted, Paint::MoveUp(shown), seq![Paint::MoveToColumn(column)]);
        lemma_run_one(painted.apply(Paint::MoveUp(shown)), Paint::MoveToColumn(column));
    } else {
        lemma_run_one(painted, Paint::MoveToColumn(column));
    }
    assert(after.rows == painted.rows);
    assert forall|i: int| 0 <= i < shown implies #[trigger] after.line(display.row + 1 + i)
        == list.candidates[i] by {
        assert(painted.line(display.row + 1 + i) == list.candidates[i]);
    }
    assert forall|row: int| row < display.row + 1 || row > display.row + shown implies #[trigger] after.line(
        row,
    ) == display.line(row) by {
        assert(painted.line(row) == display.line(row));
    }
}

/// The number of candidates that a frame shows.
pub open spec fn listed(prompt: Prompt) -> int {
    match prompt.completions {
        Some(list) => Screen::shown(list),
        None => 0,
    }
}

/// The greatest of three numbers.
pub open spec fn greatest(a: int, b: int, c: int) -> int {
    if a >= b && a >= c {
        a
    } else if b >= c {
        b
    } else {
        c
    }
}

/// The number of lines below the prompt that a frame may touch: those that
/// the frame before filled and those that this one fills.
pub open spec fn reach(screen: Screen, prompt: Prompt) -> int {
    greatest(
        screen.completion_lines,
        listed(prompt),
        if screen.has_error {
            1
        } else {
            0
        },
    )
}

/// What a frame leaves on the screen, the cursor being in the line of the
/// prompt before it. That line holds what stood in front of the text, then
/// the part of the text that is shown and the part of the suggestion that is
/// shown, and nothing behind them. The lines below hold the candidates that
/// are shown, one each and in their order. The lines that held candidates or
/// an error before and hold no candidate now are empty. The cursor is back
/// in the line of the prompt, in the column of the cursor of the text, and
/// no other line has changed.
pub proof fn lemma_frame(display: Display, screen: Screen, prompt: Prompt, columns: int)
    requires
        screen.wf(),
        prompt.wf(),
    ensures
        ({
            let after = display.run(screen.frame_paints(prompt, columns));
            &&& after.row == display.row
            &&& after.column == screen.column(prompt.line, columns)
            &&& after.line(display.row) == upto(display.line(display.row), screen.prompt_start)
                + (screen.window(prompt.line, columns) + screen.overlay(prompt, columns))
            &&& forall|i: int|
                0 <= i < listed(prompt) ==> #[trigger] after.line(display.row + 1 + i)
                    == prompt.completions->0.candidates[i]
            &&& forall|row: int|
                display.row + listed(prompt) < row <= display.row + reach(screen, prompt)
                    ==> #[trigger] after.line(row) == Seq::<char>::empty()
            &&& same_outside(display, after, display.row, display.row + reach(screen, prompt))
        }),
{
    let column = screen.column(prompt.line, columns);
    let line = screen.line_paints(prompt, columns);
    let clear = screen.clear_paints(column);
    let error = screen.error_paints(column);
    let list = match prompt.completions {
        Some(list) => Screen::list_paints(list, column),
        None => Seq::empty(),
    };
    let end = seq![Paint::MoveToColumn(column), Paint::Flush];

    let d1 = display.run(line);
    let d2 = d1.run(clear);
    let d3 = d2.run(error);
    let d4 = d3.run(list);
    let d5 = d4.run(end);
    assert(display.run(screen.frame_paints(prompt, columns)) == d5) by {
        lemma_run_both(display, line, clear);
        lemma_run_both(display, line + clear, error);
        lemma_run_both(display, line + clear + error, list);
        lemma_run_both(display, line + clear + error + list, end);
    }
    lemma_line_paints(display, screen, prompt, columns);
    lemma_clear_paints(d1, screen, column);
    lemma_error_paints(d2, screen, column);
    match prompt.completions {
        Some(offered) => {
            lemma_list_paints(d3, offered, column);
        },
        None => {
            assert(d4 == d3);
        },
    }
    assert(d5 == d4.apply(Paint::MoveToColumn(column)).apply(Paint::Flush)) by {
        assert(end =~= seq![Paint::MoveToColumn(column)] + seq![Paint::Flush]);
        lemma_run_first(d4, Paint::MoveToColumn(column), seq![Paint::Flush]);
        lemma_run_one(d4.apply(Paint::MoveToColumn(column)), Paint::Flush);
    }
    let row = display.row;
    assert(d5.rows == d4.rows);
    assert(d5.line(row) == d1.line(row)) by {
        assert(d2.line(row) == d1.line(row));
        assert(d3.line(row) == d2.line(row));
        assert(d4.line(row) == d3.line(row));
    }
    assert forall|i: int| 0 <= i < listed(prompt) implies #[trigger] d5.line(row + 1 + i)
        == prompt.completions->0.candidates[i] by {
        assert(d4.line(row + 1 + i) == prompt.completions->0.candidates[i]);
    }
    assert forall|below: int| row + listed(prompt) < below <= row + reach(screen, prompt) implies #[trigger] d5.line(
        below,
    ) == Seq::<char>::empty() by {
        assert(d4.line(below) == d3.line(below));
        if below <= row + screen.completion_lines {
            assert(d2.line(below) == Seq::<char>::empty());
            if screen.has_error && below == row + 1 {
            } else {
                assert(d3.line(below) == d2.line(below));
            }
        } else {
            assert(screen.has_error && below == row + 1);
        }
    }
    assert forall|other: int| other < row || other > row + reach(screen, prompt) implies #[trigger] d5.line(
        other,
    ) == display.line(other) by {
        assert(d1.line(other) == display.line(other));
        assert(d2.line(other) == d1.line(other));
        assert(d3.line(other) == d2.line(other));
        assert(d4.line(other) == d3.line(other));
    }
}

/// The characters of the prompt: the primary label, the secondary one
/// behind a bar where there is one, and the mark.
pub open spec fn prompt_text(label: Option<Seq<char>>) -> Seq<char> {
    match label {
        Some(label) => "vai"@ + "|"@ + clipped(label) + "> "@,
        None => "vai"@ + "> "@,
    }
}

/// Painting the prompt leaves its characters as the line of the cursor,
/// and the cursor behind them, in the column that the text starts in; no
/// other line changes.
pub proof fn lemma_prompt_paints(display: Display, label: Option<Seq<char>>)
    ensures
        ({
            let after = display.run(prompt_paints(label));
            &&& after.row == display.row
            &&& after.column == prompt_size(label)
            &&& after.line(display.row) == prompt_text(label)
            &&& prompt_text(label).len() == prompt_size(label)
            &&& same_outside(display, after, display.row, display.row)
        }),
{
    reveal_strlit("vai");
    reveal_strlit("|");
    reveal_strlit("> ");
    let primary = seq![
        Paint::MoveToColumn(0),
        Paint::ClearCurrentLine,
        Paint::SetForegroundColor(Color::DarkGreen),
        Paint::Print("vai"@),
        Paint::ResetColor,
    ];
    let secondary = match label {
        Some(label) => seq![
            Paint::Print("|"@),
            Paint::SetForegroundColor(Color::Green),
            Paint::Print(clipped(label)),
            Paint::ResetColor,
        ],
        None => Seq::empty(),
    };
    let mark = seq![Paint::Print("> "@)];
    let a1 = display.apply(Paint::MoveToColumn(0));
    let a2 = a1.apply(Paint::ClearCurrentLine);
    let a3 = a2.apply(Paint::Print("vai"@));
    assert(display.run(primary) == a3) by {
        let rest1 = seq![
            Paint::ClearCurrentLine,
            Paint::SetForegroundColor(Color::DarkGreen),
            Paint::Print("vai"@),
            Paint::ResetColor,
        ];
        let rest2 = seq![
            Paint::SetForegroundColor(Color::DarkGreen),
            Paint::Print("vai"@),
            Paint::ResetColor,
        ];
        let rest3 = seq![Paint::Print("vai"@), Paint::ResetColor];
        assert(primary =~= seq![Paint::MoveToColumn(0)] + rest1);
        lemma_run_first(display, Paint::MoveToColumn(0), rest1);
        assert(rest1 =~= seq![Paint::ClearCurrentLine] + rest2);
        lemma_run_first(a1, Paint::ClearCurrentLine, rest2);
        assert(rest2 =~= seq![Paint::SetForegroundColor(Color::DarkGreen)] + rest3);
        lemma_run_first(a2, Paint::SetForegroundColor(Color::DarkGreen), rest3);
        assert(rest3 =~= seq![Paint::Print("vai"@)] + seq![Paint::ResetColor]);
        lemma_run_first(a2, Paint::Print("vai"@), seq![Paint::ResetColor]);
        lemma_run_one(a3, Paint::ResetColor);
    }
    assert(a3.line(display.row) =~= "vai"@);
    let b = a3.run(secondary);
    match label {
        Some(given) => {
            let b1 = a3.apply(Paint::Print("|"@));
            let b2 = b1.apply(Paint::Print(clipped(given)));
            assert(b == b2) by {
                let rest1 = seq![
                    Paint::SetForegroundColor(Color::Green),
                    Paint::Print(clipped(given)),
                    Paint::ResetColor,
                ];
                let rest2 = seq![Paint::Print(clipped(given)), Paint::ResetColor];
                assert(secondary =~= seq![Paint::Print("|"@)] + rest1);
                lemma_run_first(a3, Paint::Print("|"@), rest1);
                assert(rest1 =~= seq![Paint::SetForegroundColor(Color::Green)] + rest2);
                lemma_run_first(b1, Paint::SetForegroundColor(Color::Green), rest2);
                assert(rest2 =~= seq![Paint::Print(clipped(given))] + seq![Paint::ResetColor]);
                lemma_run_first(b1, Paint::Print(clipped(given)), seq![Paint::ResetColor]);
                lemma_run_one(b2, Paint::ResetColor);
            }
            assert(b1.line(display.row) =~= "vai"@ + "|"@);
            assert(b2.line(display.row) =~= "vai"@ + "|"@ + clipped(given));
        },
        None => {
            assert(b == a3);
        },
    }
    let c = b.apply(Paint::Print("> "@));
    assert(display.run(prompt_paints(label)) == c) by {
        lemma_run_both(display, primary, secondary);
        lemma_run_both(display, primary + secondary, mark);
        lemma_run_one(b, Paint::Print("> "@));
    }
    assert(c.line(display.row) =~= prompt_text(label));
    assert forall|row: int| row != display.row implies #[trigger] c.line(row) == display.line(
        row,
    ) by {}
}

/// What painting the prompt and a frame behind it leaves on the screen, the
/// cursor being in the line of the prompt before. That line holds the
/// prompt, the part of the text that is shown and the part of the suggestion
/// that is shown, and nothing else. The lines below hold the candidates
/// that are shown, one each and in their order. The lines that held
/// candidates or an error before and hold no candidate now are empty. The
/// cursor is in the line of the prompt, in the column of the cursor of the
/// text, and no other line has changed.
pub proof fn lemma_render(
    display: Display,
    screen: Screen,
    label: Option<Seq<char>>,
    prompt: Prompt,
    columns: int,
)
    requires
        screen.wf(),
        prompt.wf(),
    ensures
        ({
            let framed = screen.labelled(label);
            let after = display.run(
                screen.label_paints(label) + framed.frame_paints(prompt, columns),
            );
            &&& after.row == display.row
            &&& after.column == framed.column(prompt.line, columns)
            &&& after.line(display.row) == prompt_text(label) + (framed.window(
                prompt.line,
                columns,
            ) + framed.overlay(prompt, columns))
            &&& forall|i: int|
                0 <= i < listed(prompt) ==> #[trigger] after.line(display.row + 1 + i)
                    == prompt.completions->0.candidates[i]
            &&& forall|row: int|
                display.row + listed(prompt) < row <= display.row + reach(screen, prompt)
                    ==> #[trigger] after.line(row) == Seq::<char>::empty()
            &&& same_outside(display, after, display.row, display.row + reach(screen, prompt))
        }),
{
    let framed = screen.labelled(label);
    let row = display.row;
    let d1 = display.run(screen.clear_paints(screen.cursor_position));
    let d2 = d1.run(prompt_paints(label));
    let d3 = d2.run(framed.frame_paints(prompt, columns));
    assert(display.run(screen.label_paints(label) + framed.frame_paints(prompt, columns)) == d3)
        by {
        lemma_run_both(display, screen.clear_paints(screen.cursor_position), prompt_paints(label));
        lemma_run_both(display, screen.label_paints(label), framed.frame_paints(prompt, columns));
    }
    lemma_clear_paints(display, screen, screen.cursor_position);
    lemma_prompt_paints(d1, label);
    lemma_frame(d2, framed, prompt, columns);
    assert(upto(d2.line(row), framed.prompt_start) =~= prompt_text(label));
    assert forall|i: int| 0 <= i < listed(prompt) implies #[trigger] d3.line(row + 1 + i)
        == prompt.completions->0.candidates[i] by {}
    assert forall|below: int| row + listed(prompt) < below <= row + reach(screen, prompt) implies #[trigger] d3.line(
        below,
    ) == Seq::<char>::empty() by {
        if below <= row + reach(framed, prompt) {
        } else {
            assert(d3.line(below) == d2.line(below));
            assert(d2.line(below) == d1.line(below));
            assert(d1.line(below) == Seq::<char>::empty());
        }
    }
    assert forall|other: int| other < row || other > row + reach(screen, prompt) implies #[trigger] d3.line(
        other,
    ) == display.line(other) by {
        assert(d3.line(other) == d2.line(other));
        assert(d2.line(other) == d1.line(other));
        assert(d1.line(other) == display.line(other));
    }
}

/// What reporting an error leaves on the screen, the cursor being in the
/// line of the prompt before: the line below holds the message behind
/// `Error: `, the lines that held candidates are empty otherwise, the cursor
/// is back where the account has it, and no other line has changed.
pub proof fn lemma_report(display: Display, screen: Screen, message: Seq<char>)
    requires
        screen.wf(),
    ensures
        ({
            let after = display.run(screen.report_paints(message));
            &&& after.row == display.row
            &&& after.column == screen.cursor_position
            &&& after.line(display.row + 1) == "Error: "@ + message
            &&& forall|row: int|
                display.row + 1 < row <= display.row + screen.completion_lines
                    ==> #[trigger] after.line(row) == Seq::<char>::empty()
            &&& same_outside(
                display,
                after,
                display.row + 1,
                display.row + greatest(screen.completion_lines, 1, 0),
            )
        }),
{
    let row = display.row;
    let column = screen.cursor_position;
    let d0 = display.run(screen.clear_paints(column));
    lemma_clear_paints(display, screen, column);
    let rest = seq![
        Paint::NewLine,
        Paint::MoveToColumn(0),
        Paint::ClearCurrentLine,
        Paint::SetForegroundColor(Color::Red),
        Paint::Print("Error: "@),
        Paint::ResetColor,
        Paint::Print(message),
        Paint::MoveUp(1),
        Paint::MoveToColumn(column),
        Paint::Flush,
    ];
    lemma_run_both(display, screen.clear_paints(column), rest);
    let e1 = d0.apply(Paint::NewLine);
    let e2 = e1.apply(Paint::MoveToColumn(0));
    let e3 = e2.apply(Paint::ClearCurrentLine);
    let e4 = e3.apply(Paint::Print("Error: "@));
    let e5 = e4.apply(Paint::Print(message));
    let e6 = e5.apply(Paint::MoveUp(1));
    let e7 = e6.apply(Paint::MoveToColumn(column));
    assert(d0.run(rest) == e7) by {
        let r1 = rest.subrange(1, 10);
        let r2 = rest.subrange(2, 10);
        let r3 = rest.subrange(3, 10);
        let r4 = rest.subrange(4, 10);
        let r5 = rest.subrange(5, 10);
        let r6 = rest.subrange(6, 10);
        let r7 = rest.subrange(7, 10);
        let r8 = rest.subrange(8, 10);
        assert(rest =~= seq![Paint::NewLine] + r1);
        lemma_run_first(d0, Paint::NewLine, r1);
        assert(r1 =~= seq![Paint::MoveToColumn(0)] + r2);
        lemma_run_first(e1, Paint::MoveToColumn(0), r2);
        assert(r2 =~= seq![Paint::ClearCurrentLine] + r3);
        lemma_run_first(e2, Paint::ClearCurrentLine, r3);
        assert(r3 =~= seq![Paint::SetForegroundColor(Color::Red)] + r4);
        lemma_run_first(e3, Paint::SetForegroundColor(Color::Red), r4);
        assert(r4 =~= seq![Paint::Print("Error: "@)] + r5);
        lemma_run_first(e3, Paint::Print("Error: "@), r5);
        assert(r5 =~= seq![Paint::ResetColor] + r6);
        lemma_run_first(e4, Paint::ResetColor, r6);
        assert(r6 =~= seq![Paint::Print(message)] + r7);
        lemma_run_first(e4, Paint::Print(message), r7);
        assert(r7 =~= seq![Paint::MoveUp(1)] + r8);
        lemma_run_first(e5, Paint::MoveUp(1), r8);
        assert(r8 =~= seq![Paint::MoveToColumn(column)] + seq![Paint::Flush]);
        lemma_run_first(e6, Paint::MoveToColumn(column), seq![Paint::Flush]);
        lemma_run_one(e7, Paint::Flush);
    }
    assert(e4.line(row + 1) =~= "Error: "@);
    assert(e5.line(row + 1) =~= "Error: "@ + message);
    assert forall|below: int| row + 1 < below <= row + screen.completion_lines implies #[trigger] e7.line(
        below,
    ) == Seq::<char>::empty() by {
        assert(d0.line(below) == Seq::<char>::empty());
    }
    assert forall|other: int|
        other < row + 1 || other > row + greatest(
            screen.completion_lines,
            1,
            0,
        ) implies #[trigger] e7.line(other) == display.line(other) by {
        assert(d0.line(other) == display.line(other));
    }
}

} // verus!
