//! Turning a script's result into the ordered platform actions that render it.
use vstd::prelude::*;
use vstd::string::StringExecFns;

verus! {

/// A non-fatal condition reported alongside a script's result.
#[derive(Debug, Clone, Copy, PartialEq, Eq, Structural)]
pub enum Warning {
    /// A key was opened and never closed.
    UnclosedKeys,
}

/// What a script produced, as far as rendering reads it.
pub struct ScriptOutput {
    /// The text of the reply.
    pub message: String,
    /// A channel the script asked the reply to go to instead of the default one.
    pub target: Option<u64>,
    /// Whether the script built an embed.
    pub has_embed: bool,
    /// How many reactions the script asked for, in order.
    pub reaction_count: usize,
    /// Delay in milliseconds after which the reply is deleted.
    pub delete_after_ms: Option<u64>,
    /// Warnings found while reading the script.
    pub warnings: Option<Vec<Warning>>,
}

/// One platform action, in the order in which they are carried out.
pub enum RenderStep {
    /// Post this text.
    SendText(String),
    /// Post the script's embed.
    SendEmbed,
    /// Add reaction number `i` to the message sent last.
    React(usize),
    /// Wait this many milliseconds, then delete the message sent last.
    DeleteLast(u64),
}

/// A platform action as a mathematical value.
pub enum StepView {
    SendText(Seq<char>),
    SendEmbed,
    React(nat),
    DeleteLast(u64),
}

impl RenderStep {
    pub open spec fn view(&self) -> StepView {
        match self {
            RenderStep::SendText(s) => StepView::SendText(s@),
            RenderStep::SendEmbed => StepView::SendEmbed,
            RenderStep::React(i) => StepView::React(*i as nat),
            RenderStep::DeleteLast(ms) => StepView::DeleteLast(*ms),
        }
    }
}

/// The line that reports a warning.
pub open spec fn warning_line(w: Warning) -> Seq<char> {
    match w {
        Warning::UnclosedKeys => "There were unclosed keys in the response\n"@,
    }
}

/// The lines of all warnings, in order.
pub open spec fn warnings_text(ws: Seq<Warning>) -> Seq<char>
    decreases ws.len(),
{
    if ws.len() == 0 {
        Seq::<char>::empty()
    } else {
        warnings_text(ws.drop_last()) + warning_line(ws.last())
    }
}

/// The text post: warning lines first, then the message.
pub open spec fn body_text(o: &ScriptOutput) -> Seq<char> {
    let lines = match o.warnings {
        Some(ws) => warnings_text(ws@),
        None => Seq::<char>::empty(),
    };
    lines + o.message@
}

/// Whether rendering posts any message.
pub open spec fn sends_message(o: &ScriptOutput) -> bool {
    body_text(o).len() > 0 || o.has_embed
}

/// The actions that render `o`: the text post unless it is empty, the embed
/// if there is one, then (only if something was posted) the reactions in
/// order and the delayed deletion of the last post.
pub open spec fn render_plan(o: &ScriptOutput) -> Seq<StepView> {
    let text = body_text(o);
    let sent = sends_message(o);
    let posts = (if text.len() > 0 {
        seq![StepView::SendText(text)]
    } else {
        Seq::<StepView>::empty()
    }) + (if o.has_embed {
        seq![StepView::SendEmbed]
    } else {
        Seq::<StepView>::empty()
    });
    posts + (if sent {
        Seq::new(o.reaction_count as nat, |i: int| StepView::React(i as nat))
    } else {
        Seq::<StepView>::empty()
    }) + (if sent && o.delete_after_ms is Some {
        seq![StepView::DeleteLast(o.delete_after_ms->0)]
    } else {
        Seq::<StepView>::empty()
    })
}

/// Every warning adds a non-empty line.
proof fn lemma_warnings_text_nonempty(ws: Seq<Warning>)
    requires
        ws.len() > 0,
    ensures
        warnings_text(ws).len() > 0,
{
    reveal_strlit("There were unclosed keys in the response\n");
    assert(warning_line(ws.last()).len() > 0);
}

/// A result with warnings, an empty message and no embed makes exactly one
/// post, holding only the warning lines; a result with an empty message, no
/// embed and no warnings makes no post and no other action; reactions and the
/// delayed deletion only ever follow a post.
pub proof fn lemma_render_outcomes(o: &ScriptOutput)
    ensures
        o.message@.len() == 0 && !o.has_embed && o.warnings is Some && o.warnings->0@.len() > 0
            ==> {
            &&& render_plan(o).len() > 0
            &&& render_plan(o)[0] == StepView::SendText(warnings_text(o.warnings->0@))
            &&& forall|k: int|
                1 <= k < render_plan(o).len() ==> !(#[trigger] render_plan(o)[k] is SendText)
                    && !(render_plan(o)[k] is SendEmbed)
        },
        o.message@.len() == 0 && !o.has_embed && (o.warnings is None || o.warnings->0@.len()
            == 0) ==> render_plan(o).len() == 0,
        forall|k: int|
            0 <= k < render_plan(o).len() && (#[trigger] render_plan(o)[k] is React
                || render_plan(o)[k] is DeleteLast) ==> (render_plan(o)[0] is SendText
                || render_plan(o)[0] is SendEmbed),
{
    let text = body_text(o);
    if o.warnings is Some && o.warnings->0@.len() > 0 {
        lemma_warnings_text_nonempty(o.warnings->0@);
    }
    if o.message@.len() == 0 {
        let lines = match o.warnings {
            Some(ws) => warnings_text(ws@),
            None => Seq::<char>::empty(),
        };
        assert(text == lines);
    }
    if o.warnings is Some && o.warnings->0@.len() == 0 {
        assert(warnings_text(o.warnings->0@) == Seq::<char>::empty());
    }
}

/// The views of a list of steps.
pub open spec fn steps_view(steps: Seq<RenderStep>) -> Seq<StepView> {
    steps.map_values(|s: RenderStep| s.view())
}

fn warning_text(w: Warning) -> (r: &'static str)
    ensures
        r@ == warning_line(w),
{
    match w {
        Warning::UnclosedKeys => "There were unclosed keys in the response\n",
    }
}

/// Plans the rendering of a script's output.
pub fn send_result(output: &ScriptOutput) -> (r: Vec<RenderStep>)
    ensures
        steps_view(r@) == render_plan(output),
{
    let mut text = String::new();
    match &output.warnings {
        Some(ws) => {
            let mut i: usize = 0;
            while i < ws.len()
                invariant
                    i <= ws.len(),
                    text@ == warnings_text(ws@.take(i as int)),
                decreases ws.len() - i,
            {
                text.append(warning_text(ws[i]));
                assert(ws@.take(i + 1).drop_last() == ws@.take(i as int));
                i = i + 1;
            }
            assert(ws@.take(ws.len() as int) == ws@);
        },
        None => {},
    }
    text.append(output.message.as_str());
    let ghost text_view = text@;
    assert(text_view == body_text(output));
    let mut steps: Vec<RenderStep> = Vec::new();
    let has_text = !text.as_str().is_empty();
    if has_text {
        steps.push(RenderStep::SendText(text));
    }
    if output.has_embed {
        steps.push(RenderStep::SendEmbed);
    }
    let ghost head = steps_view(steps@);
    assert(head == (if text_view.len() > 0 {
        seq![StepView::SendText(text_view)]
    } else {
        Seq::<StepView>::empty()
    }) + (if output.has_embed {
        seq![StepView::SendEmbed]
    } else {
        Seq::<StepView>::empty()
    }));
    if has_text || output.has_embed {
        let mut i: usize = 0;
        while i < output.reaction_count
            invariant
                i <= output.reaction_count,
                steps_view(steps@) == head + Seq::new(i as nat, |k: int| StepView::React(k as nat)),
            decreases output.reaction_count - i,
        {
            let ghost before = steps@;
            steps.push(RenderStep::React(i));
            assert(steps_view(steps@) =~= steps_view(before).push(StepView::React(i as nat)));
            assert(steps_view(steps@) =~= head + Seq::new((i + 1) as nat, |k: int| StepView::React(k as nat)));
            i = i + 1;
        }
        match output.delete_after_ms {
            Some(ms) => {
                steps.push(RenderStep::DeleteLast(ms));
            },
            None => {},
        }
    }
    assert(steps_view(steps@) =~= render_plan(output));
    steps
}

/// The channel a reply goes to: the script's own target, else the channel the
/// event came from; `None` when neither is known and nothing is to be posted.
pub fn resolve_channel(target: Option<u64>, origin: Option<u64>) -> (r: Option<u64>)
    ensures
        r == (match target {
            Some(t) => Some(t),
            None => origin,
        }),
{
    match target {
        Some(t) => Some(t),
        None => origin,
    }
}

} // verus!
