use vstd::prelude::*;
use crate::models::Frame;
use crate::text::{
    chars_of, contains, eq_ignore_ascii_case, eq_ignore_ascii_case_exec, has_infix, has_prefix,
    parse_i32, parsed_i32, replace_all, replace_chars, same_chars, split_char, split_on,
    starts_with, string_of, strip_line_end, trim, trim_chars, views_of, without_line_end,
};

verus! {

/// Progress of a render, read from Blender's output.
///
/// The sample counts of a progress report are kept as the text Blender printed.
#[derive(Debug, Clone, PartialEq, Eq)]
pub enum RenderEvent {
    Progress { frame: i32, current: String, total: String },
    Complete { frame: i32, path: String },
}

/// One line of Blender's output, classified.
#[derive(Debug, Clone, PartialEq, Eq)]
pub enum BlenderEvent {
    Info(String),
    Rendering(RenderEvent),
    Warning(String),
    Exit,
    Error(String),
    Busy,
    Unhandled(String),
}

/// The abstract content of a [`BlenderEvent`].
pub enum EventView {
    Info(Seq<char>),
    Progress { frame: i32, current: Seq<char>, total: Seq<char> },
    Complete { frame: i32, path: Seq<char> },
    Warning(Seq<char>),
    Exit,
    Error(Seq<char>),
    Busy,
    Unhandled(Seq<char>),
}

impl View for BlenderEvent {
    type V = EventView;

    open spec fn view(&self) -> EventView {
        match self {
            BlenderEvent::Info(s) => EventView::Info(s@),
            BlenderEvent::Rendering(RenderEvent::Progress { frame, current, total }) => {
                EventView::Progress { frame: *frame, current: current@, total: total@ }
            },
            BlenderEvent::Rendering(RenderEvent::Complete { frame, path }) => EventView::Complete {
                frame: *frame,
                path: path@,
            },
            BlenderEvent::Warning(s) => EventView::Warning(s@),
            BlenderEvent::Exit => EventView::Exit,
            BlenderEvent::Error(s) => EventView::Error(s@),
            BlenderEvent::Busy => EventView::Busy,
            BlenderEvent::Unhandled(s) => EventView::Unhandled(s@),
        }
    }
}

/// The frame that a frame line (`Fra:N ...`) reports, or `frame` when it reports none: the
/// first word of the text before the first `|`, with `Fra:` taken out, read as a number.
pub open spec fn reported_frame(line: Seq<char>, frame: i32) -> i32 {
    let head = split_on(split_on(line, '|')[0], ' ')[0];
    match parsed_i32(replace_all(head, "Fra:"@, Seq::<char>::empty())) {
        Some(f) => f,
        None => frame,
    }
}

/// The words of the text after the last `|` of a frame line, white space trimmed.
pub open spec fn status_words(line: Seq<char>) -> Seq<Seq<char>> {
    split_on(trim(split_on(line, '|').last()), ' ')
}

/// The lines that Blender's output reader cannot take apart: a frame line whose status
/// begins with `Rendering` but has fewer than four words, and a `Saved:` line without a
/// quoted path.
pub open spec fn malformed_line(line: Seq<char>) -> bool {
    if has_infix(line, "Fra:"@) {
        status_words(line)[0] == "Rendering"@ && status_words(line).len() < 4
    } else if has_prefix(line, "Time:"@) || has_infix(line, "Use:"@) {
        false
    } else if has_infix(line, "Saved:"@) {
        split_on(line, '\'').len() < 2
    } else {
        false
    }
}

/// The event that `line` gives when the current frame is `frame`, and the frame after it.
pub open spec fn line_event(line: Seq<char>, frame: i32) -> (EventView, i32) {
    if has_infix(line, "Fra:"@) {
        let f = reported_frame(line, frame);
        let words = status_words(line);
        if words[0] == "Rendering"@ {
            (EventView::Progress { frame: f, current: words[1], total: words[3] }, f)
        } else {
            (EventView::Unhandled(line), f)
        }
    } else if has_prefix(line, "Time:"@) {
        (EventView::Info(line), frame)
    } else if has_infix(line, "Use:"@) {
        (EventView::Info(line), frame)
    } else if has_infix(line, "Saved:"@) {
        (EventView::Complete { frame, path: split_on(line, '\'')[1] }, frame)
    } else if has_prefix(line, "EXCEPTION:"@) {
        (EventView::Error(line), frame)
    } else if has_prefix(line, "Blender "@) {
        if eq_ignore_ascii_case(without_line_end(line), "blender quit"@) {
            (EventView::Exit, frame)
        } else {
            (EventView::Info(line), frame)
        }
    } else if has_prefix(line, "Read blend: "@) {
        (EventView::Info(line), frame)
    } else if has_prefix(line, "regiondata free error"@) {
        (EventView::Warning(line), frame)
    } else if has_prefix(line, "Color management: "@) {
        (EventView::Info(line), frame)
    } else if has_infix(line, "Warning:"@) {
        (EventView::Warning(line), frame)
    } else if has_infix(line, "Error:"@) {
        (EventView::Error(line), frame)
    } else if line == "\n"@ {
        (EventView::Busy, frame)
    } else {
        (EventView::Unhandled(line), frame)
    }
}

/// Reads Blender's render output line by line, keeping track of the frame being rendered.
#[derive(Debug, Clone)]
pub struct RenderLog {
    pub current_frame: Frame,
}

impl RenderLog {
    pub fn new(start_frame: Frame) -> (r: RenderLog)
        ensures
            r.current_frame == start_frame,
    {
        RenderLog { current_frame: start_frame }
    }

    /// Whether `line` can be classified (see [`malformed_line`]).
    pub fn well_formed(line: &str) -> (res: bool)
        ensures
            res == !malformed_line(line@),
    {
        let l = chars_of(line);
        if contains(&l, &chars_of("Fra:")) {
            let col = split_char(&l, '|');
            let last = trim_chars(col[col.len() - 1].as_slice());
            let slice = split_char(&last, ' ');
            proof {
                assert(col@.last()@ == split_on(l@, '|').last());
                assert(slice[0]@ == status_words(l@)[0]);
            }
            !(same_chars(&slice[0], &chars_of("Rendering")) && slice.len() < 4)
        } else if starts_with(&l, &chars_of("Time:")) || contains(&l, &chars_of("Use:")) {
            true
        } else if contains(&l, &chars_of("Saved:")) {
            let location = split_char(&l, '\'');
            location.len() >= 2
        } else {
            true
        }
    }

    /// Classifies one line of Blender's output and updates the current frame from it.
    pub fn child_stream_to_event(&mut self, line: String) -> (ev: BlenderEvent)
        requires
            !malformed_line(line@),
        ensures
            ev@ == line_event(line@, old(self).current_frame).0,
            final(self).current_frame == line_event(line@, old(self).current_frame).1,
            ev@ matches EventView::Complete { frame, .. } ==> frame == final(self).current_frame,
            ev@ matches EventView::Progress { frame, .. } ==> frame == final(self).current_frame,
            has_infix(line@, "Fra:"@) ==> (parsed_i32(
                replace_all(
                    split_on(split_on(line@, '|')[0], ' ')[0],
                    "Fra:"@,
                    Seq::<char>::empty(),
                ),
            ) matches Some(f) ==> final(self).current_frame == f),
    {
        let l = chars_of(line.as_str());
        if contains(&l, &chars_of("Fra:")) {
            let col = split_char(&l, '|');
            let head = split_char(col[0].as_slice(), ' ');
            let fra = chars_of("Fra:");
            proof {
                reveal_strlit("Fra:");
                assert(col@[0]@ == split_on(l@, '|')[0]);
                assert(head@[0]@ == split_on(split_on(l@, '|')[0], ' ')[0]);
            }
            let digits = string_of(replace_chars(head[0].as_slice(), &fra, &Vec::new()).as_slice());
            match parse_i32(digits.as_str()) {
                Ok(f) => {
                    self.current_frame = f;
                },
                Err(_) => {},
            }
            let last = trim_chars(col[col.len() - 1].as_slice());
            let slice = split_char(&last, ' ');
            proof {
                assert(col@.last()@ == split_on(l@, '|').last());
                assert(views_of(slice@) == status_words(l@));
            }
            if same_chars(&slice[0], &chars_of("Rendering")) {
                proof {
                    assert(slice@[1]@ == status_words(l@)[1]);
                    assert(slice@[3]@ == status_words(l@)[3]);
                }
                let current = string_of(slice[1].as_slice());
                let total = string_of(slice[3].as_slice());
                BlenderEvent::Rendering(
                    RenderEvent::Progress { frame: self.current_frame, current, total },
                )
            } else {
                BlenderEvent::Unhandled(line)
            }
        } else if starts_with(&l, &chars_of("Time:")) {
            BlenderEvent::Info(line)
        } else if contains(&l, &chars_of("Use:")) {
            BlenderEvent::Info(line)
        } else if contains(&l, &chars_of("Saved:")) {
            let location = split_char(&l, '\'');
            proof {
                assert(location@[1]@ == split_on(l@, '\'')[1]);
            }
            let path = string_of(location[1].as_slice());
            BlenderEvent::Rendering(RenderEvent::Complete { frame: self.current_frame, path })
        } else if starts_with(&l, &chars_of("EXCEPTION:")) {
            BlenderEvent::Error(line)
        } else if starts_with(&l, &chars_of("Blender ")) {
            if eq_ignore_ascii_case_exec(strip_line_end(&l).as_slice(), &chars_of("blender quit")) {
                BlenderEvent::Exit
            } else {
                BlenderEvent::Info(line)
            }
        } else if starts_with(&l, &chars_of("Read blend: ")) {
            BlenderEvent::Info(line)
        } else if starts_with(&l, &chars_of("regiondata free error")) {
            BlenderEvent::Warning(line)
        } else if starts_with(&l, &chars_of("Color management: ")) {
            BlenderEvent::Info(line)
        } else if contains(&l, &chars_of("Warning:")) {
            BlenderEvent::Warning(line)
        } else if contains(&l, &chars_of("Error:")) {
            BlenderEvent::Error(line)
        } else if same_chars(&l, &chars_of("\n")) {
            BlenderEvent::Busy
        } else {
            BlenderEvent::Unhandled(line)
        }
    }
}

/// Only frame lines (those holding `Fra:`) change the current frame.
pub proof fn law_frame_changes_only_on_frame_lines(line: Seq<char>, frame: i32)
    ensures
        !has_infix(line, "Fra:"@) ==> line_event(line, frame).1 == frame,
{
}

/// A frame line whose frame number does not read keeps the current frame.
pub proof fn law_unreadable_frame_keeps_frame(line: Seq<char>, frame: i32)
    ensures
        has_infix(line, "Fra:"@) && parsed_i32(
            replace_all(split_on(split_on(line, '|')[0], ' ')[0], "Fra:"@, Seq::<char>::empty()),
        ) is None ==> line_event(line, frame).1 == frame,
{
}

/// Every frame line (one holding `Fra:`) whose first word before the first `|`, with `Fra:`
/// taken out, reads as a number makes that number the current frame, whatever its status
/// words say.
pub proof fn law_frame_lines_set_the_frame(line: Seq<char>, frame: i32, f: i32)
    requires
        has_infix(line, "Fra:"@),
        parsed_i32(
            replace_all(split_on(split_on(line, '|')[0], ' ')[0], "Fra:"@, Seq::<char>::empty()),
        ) == Some(f),
    ensures
        line_event(line, frame).1 == f,
{
}

} // verus!
