//! Asks and answers, from what the caller gives and what the human does.

use crate::confirm::{
    all_read_back, answer_body, answer_stored, any_buttons, ask_message, ask_routing,
    buttons_at, click_edit, click_outcome, click_stored, click_value, context_line,
    context_parts, destination, dm_json, draft_of, element_routing, element_routings,
    has_buttons, ignore_button, ignore_value, is_open, positive_buttons, positive_values,
    post_thread, reads_back, resolved, routing_fits, routing_of, routings, section_parts,
    section_text_of, terminal_label, terminal_of, terminal_result, TerminalView,
};
use crate::db::DbView;
use crate::json::{denotes, json_fits, json_read, json_written, JsonView};
use crate::laws::capture::{has_field, has_text};
use crate::laws::words::{filter_keeps_what_passes, joining_appends, sifted, sifts};
use crate::slack::{
    Block, BlockActions, BlockKind, BlockKindView, BlockView, Button, ButtonView, Content,
    Dialog, Element, ElementView, HistoryMessage,
};
use crate::text::{joined, opt_text};
use vstd::prelude::*;

verus! {

// --- reading a message ---

/// The text of an object's field, if there is one.
pub open spec fn text_field(v: JsonView, key: Seq<char>) -> Option<Seq<char>> {
    match v {
        JsonView::Object(fields) => if fields.contains_key(key) {
            match fields[key] {
                JsonView::Text(s) => Some(s),
                _ => None,
            }
        } else {
            None
        },
        _ => None,
    }
}

/// The text of a message grows with each section that has one, an empty line between each two;
/// blocks of other kinds add nothing to it.
pub proof fn section_text_grows_by_sections(blocks: Seq<BlockView>, next: BlockView)
    ensures
        section_text_of(None) is None,
        section_text_of(Some(Seq::empty())) is None,
        next.kind matches BlockKindView::Section(Some(t)) ==> section_text_of(
            Some(blocks.push(next)),
        ) == Some(
            match section_text_of(Some(blocks)) {
                Some(before) => before + "\n\n"@ + t,
                None => t,
            },
        ),
        !(next.kind matches BlockKindView::Section(Some(_))) ==> section_text_of(
            Some(blocks.push(next)),
        ) == section_text_of(Some(blocks)),
{
    let all = blocks.push(next);
    assert(all.drop_last() =~= blocks);
    if let BlockKindView::Section(Some(t)) = next.kind {
        joining_appends(section_parts(blocks), t, "\n\n"@);
    }
}

/// What the value of a button brings back: what is under `exec`, else what is under `action`.
pub open spec fn brought_back(e: ElementView) -> Option<JsonView> {
    match e {
        ElementView::Button(b) => match b.value {
            Some(text) => match json_read(text) {
                Ok(JsonView::Object(fields)) => if fields.contains_key("exec"@) {
                    Some(fields["exec"@])
                } else if fields.contains_key("action"@) {
                    Some(fields["action"@])
                } else {
                    None
                },
                _ => None,
            },
            None => None,
        },
        ElementView::Other => None,
    }
}

/// Of two routings the earlier counts, unless it is a no-op and the later is not.
pub open spec fn better(earlier: Option<JsonView>, later: Option<JsonView>) -> Option<JsonView> {
    match (earlier, later) {
        (Some(a), Some(b)) => if text_field(a, "type"@) == Some("ignore"@) && text_field(b, "type"@)
            != Some("ignore"@) {
            Some(b)
        } else {
            Some(a)
        },
        (Some(a), None) => Some(a),
        (None, later) => later,
    }
}

proof fn lemma_routings_push(blocks: Seq<BlockView>, els: Seq<ElementView>, e: ElementView)
    ensures
        ({
            let before = blocks.push(
                BlockView { kind: BlockKindView::Actions(els), source: None },
            );
            let after = blocks.push(
                BlockView { kind: BlockKindView::Actions(els.push(e)), source: None },
            );
            match element_routing(e) {
                Some(r) => routings(after) == routings(before).push(r),
                None => routings(after) == routings(before),
            }
        }),
{
    let x = BlockView { kind: BlockKindView::Actions(els), source: None };
    let y = BlockView { kind: BlockKindView::Actions(els.push(e)), source: None };
    assert(blocks.push(x).drop_last() =~= blocks);
    assert(blocks.push(y).drop_last() =~= blocks);
    assert(els.push(e).drop_last() =~= els);
    if let Some(r) = element_routing(e) {
        assert(routings(blocks) + element_routings(els).push(r) =~= (routings(blocks)
            + element_routings(els)).push(r));
    }
}

/// The routing of a message is found button by button: each button is weighed against those
/// before it, and blocks without buttons count for nothing.
pub proof fn routing_is_found_button_by_button(
    blocks: Seq<BlockView>,
    els: Seq<ElementView>,
    e: ElementView,
    other: BlockView,
)
    requires
        !(other.kind is Actions),
    ensures
        routing_of(None) is None,
        routing_of(Some(Seq::empty())) is None,
        routing_of(Some(blocks.push(other))) == routing_of(Some(blocks)),
        routing_of(
            Some(
                blocks.push(
                    BlockView { kind: BlockKindView::Actions(Seq::empty()), source: None },
                ),
            ),
        ) == routing_of(Some(blocks)),
        ({
            let before = blocks.push(
                BlockView { kind: BlockKindView::Actions(els), source: None },
            );
            let after = blocks.push(
                BlockView { kind: BlockKindView::Actions(els.push(e)), source: None },
            );
            routing_of(Some(after)) == better(routing_of(Some(before)), brought_back(e))
        }),
{
    assert(blocks.push(other).drop_last() =~= blocks);
    let bare = BlockView { kind: BlockKindView::Actions(Seq::empty()), source: None };
    assert(blocks.push(bare).drop_last() =~= blocks);
    assert(element_routings(Seq::<ElementView>::empty()) =~= Seq::empty());
    assert(routings(blocks) + Seq::<JsonView>::empty() =~= routings(blocks));
    assert(routings(Seq::<BlockView>::empty()) =~= Seq::empty());
    assert(element_routing(e) == brought_back(e));
    lemma_routings_push(blocks, els, e);
    let before = blocks.push(BlockView { kind: BlockKindView::Actions(els), source: None });
    if let Some(r) = element_routing(e) {
        crate::confirm::lemma_chosen_push(routings(before), r);
    }
}

// --- resolving a message ---

/// Whether a message holds, in order and unchanged, each block of another that is no actions
/// block, and then one context line.
pub open spec fn keeps_all_but_buttons(
    before: Seq<BlockView>,
    after: Seq<BlockView>,
    label: Seq<char>,
    at: Seq<int>,
) -> bool {
    &&& sifts(before, |b: BlockView| !(b.kind is Actions), at)
    &&& after.len() == at.len() + 1
    &&& forall|j: int| 0 <= j < at.len() ==> #[trigger] after[j] == before[at[j]]
    &&& after[at.len() as int] == (BlockView {
        kind: BlockKindView::Context(label),
        source: None,
    })
}

/// A resolved message keeps every section, every context line and every other block, in their
/// order; the buttons alone are gone, and the outcome comes last. Of a message that had only
/// buttons, or no blocks, the outcome is left as plain text.
pub proof fn resolving_takes_the_buttons_alone(blocks: Option<Seq<BlockView>>, label: Seq<char>)
    ensures
        resolved(blocks, label).text == Some(label),
        blocks matches Some(b) ==> if exists|i: int|
            0 <= i < b.len() && !((#[trigger] b[i]).kind is Actions) {
            resolved(blocks, label).blocks is Some && exists|at: Seq<int>| #[trigger]
                keeps_all_but_buttons(b, resolved(blocks, label).blocks->0, label, at)
        } else {
            resolved(blocks, label).blocks is None
        },
        blocks is None ==> resolved(blocks, label).blocks is None,
{
    if let Some(b) = blocks {
        let keeps = |x: BlockView| !has_buttons(x);
        let pass = |x: BlockView| !(x.kind is Actions);
        filter_keeps_what_passes(b, keeps);
        let at = sifted(b, keeps);
        let kept = b.filter(keeps);
        assert forall|i: int| 0 <= i < b.len() && pass(#[trigger] b[i]) implies exists|j: int|
            0 <= j < at.len() && #[trigger] at[j] == i by {
            assert(keeps(b[i]));
        }
        assert forall|j: int| 0 <= j < at.len() implies 0 <= #[trigger] at[j] < b.len() && pass(
            b[at[j]],
        ) by {
            assert(keeps(b[at[j]]));
        }
        assert(sifts(b, pass, at));
        if exists|i: int| 0 <= i < b.len() && !((#[trigger] b[i]).kind is Actions) {
            let i = choose|i: int| 0 <= i < b.len() && !((#[trigger] b[i]).kind is Actions);
            assert(pass(b[i]));
            let j = choose|j: int| 0 <= j < at.len() && #[trigger] at[j] == i;
            assert(kept.len() > 0);
            let after = resolved(blocks, label).blocks->0;
            assert(after == kept.push(context_line(label)));
            assert forall|k: int| 0 <= k < at.len() implies #[trigger] after[k] == b[at[k]] by {
                assert(after[k] == kept[k]);
            }
            assert(keeps_all_but_buttons(b, after, label, at));
        } else {
            if kept.len() > 0 {
                assert(pass(b[at[0]]));
            }
        }
    }
}

// --- asking ---

/// The line that says where a post goes: the channel that its routing names, as a mention, and
/// a link to the thread where the routing names one and its permalink is known.
pub open spec fn where_it_goes(post: Option<JsonView>, permalink: Option<Seq<char>>) -> Option<
    Seq<char>,
> {
    match post {
        Some(p) => match text_field(p, "channel"@) {
            Some(channel) => if text_field(p, "thread"@) is Some && permalink is Some {
                Some(
                    "投稿先: <#"@ + channel + "> (<"@ + permalink->0 + "|該当スレッド>)"@,
                )
            } else {
                Some("投稿先: <#"@ + channel + ">"@)
            },
            None => None,
        },
        None => None,
    }
}

proof fn lemma_where_it_goes(post: JsonView, permalink: Option<Seq<char>>)
    ensures
        destination(post, permalink) == where_it_goes(Some(post), permalink),
{
    reveal_strlit("投稿先: ");
    reveal_strlit("<#");
    reveal_strlit(">");
    reveal_strlit(" (<");
    reveal_strlit("投稿先: <#");
    reveal_strlit("> (<");
    assert("投稿先: "@ + "<#"@ =~= "投稿先: <#"@);
    assert(">"@ + " (<"@ =~= "> (<"@);
    if let Some(channel) = text_field(post, "channel"@) {
        assert("投稿先: "@ + ("<#"@ + channel + ">"@) =~= "投稿先: <#"@ + channel + ">"@);
        if let Some(link) = permalink {
            assert("投稿先: "@ + ("<#"@ + channel + ">"@) + " (<"@ + link + "|該当スレッド>)"@
                =~= "投稿先: <#"@ + channel + "> (<"@ + link + "|該当スレッド>)"@);
        }
    }
}

/// An ask of whichever kind shows its text, then the context that the caller gave and where a
/// post goes, on a line each, and then its buttons; without context and without a destination
/// there is no context line at all.
pub proof fn asks_show_text_context_and_buttons(
    text: Seq<char>,
    buttons: Seq<ButtonView>,
    post: Option<JsonView>,
    context: Option<Seq<char>>,
    permalink: Option<Seq<char>>,
)
    ensures
        ({
            let message = ask_message(text, buttons, context_parts(post, context, permalink));
            let blocks = message.blocks->0;
            &&& message.text is None
            &&& message.blocks is Some
            &&& blocks.len() >= 2
            &&& blocks[0].kind == BlockKindView::Section(Some(text))
            &&& blocks.last().kind matches BlockKindView::Actions(els)
            &&& els.len() == buttons.len() + 1
            &&& forall|i: int| 0 <= i < buttons.len() ==> #[trigger] els[i] == ElementView::Button(
                buttons[i],
            )
            &&& els.last() == ElementView::Button(ignore_button())
            &&& match (context, where_it_goes(post, permalink)) {
                (Some(c), Some(line)) => blocks.len() == 3 && blocks[1].kind
                    == BlockKindView::Context(c + "\n"@ + line),
                (Some(c), None) => blocks.len() == 3 && blocks[1].kind
                    == BlockKindView::Context(c),
                (None, Some(line)) => blocks.len() == 3 && blocks[1].kind
                    == BlockKindView::Context(line),
                (None, None) => blocks.len() == 2,
            }
            &&& forall|i: int| 0 <= i < blocks.len() ==> (#[trigger] blocks[i]).source is None
        }),
{
    let parts = context_parts(post, context, permalink);
    if let Some(p) = post {
        lemma_where_it_goes(p, permalink);
    }
    if let Some(c) = context {
        if let Some(line) = where_it_goes(post, permalink) {
            assert(parts =~= seq![c, line]);
            assert(parts.drop_last() =~= seq![c]);
            assert(joined(seq![c], "\n"@) == c);
            assert(joined(parts, "\n"@) == c + "\n"@ + line);
        } else {
            assert(parts =~= seq![c]);
        }
    } else {
        if let Some(line) = where_it_goes(post, permalink) {
            assert(parts =~= seq![line]);
        } else {
            assert(parts =~= Seq::empty());
        }
    }
}

/// Whether a button is as an ask should show it: plain, or marked as the one to press, or
/// marked as dangerous with a second question before it counts.
pub open spec fn shown_as(
    b: ButtonView,
    id: Seq<char>,
    label: Seq<char>,
    style: Option<Seq<char>>,
) -> bool {
    &&& b.action_id == id
    &&& b.label == label
    &&& b.style == style
    &&& style == Some("danger"@) ==> (b.confirm matches Some(d) && d.title == "実行の確認"@
        && d.text == "この操作を実行します。よろしいですか？"@ && d.confirm == "実行する"@
        && d.deny == "やめる"@)
    &&& style != Some("danger"@) ==> b.confirm is None
}

/// Whether the value of a button is the text of an object that holds a decision, and a routing
/// under `exec` (the daemon runs it) or under `action` (the consumer does), and nothing else.
pub open spec fn brings(
    b: ButtonView,
    decision: Seq<char>,
    under: Seq<char>,
    routing: JsonView,
) -> bool {
    b.value == Some(
        json_written(
            JsonView::Object(map!["decision"@ => JsonView::Text(decision), under => routing]),
        ),
    )
}

/// The positive buttons of an ask: one `投稿` that the daemon runs where a post is given; else
/// one for each choice, in their order, which the consumer handles; else one `承認`, which the
/// consumer handles, where an action is given. An ask with none of these has none. A dangerous
/// ask marks each of them.
pub proof fn positive_buttons_by_what_is_asked(
    action: Option<JsonView>,
    post: Option<JsonView>,
    choices: Seq<Seq<char>>,
    danger: bool,
)
    ensures
        ({
            let buttons = positive_buttons(action, post, choices, danger);
            let pressed = Some(
                if danger {
                    "danger"@
                } else {
                    "primary"@
                },
            );
            &&& buttons is None <==> post is None && choices.len() == 0 && action is None
            &&& post matches Some(p) ==> buttons->0.len() == 1 && shown_as(
                buttons->0[0],
                "post"@,
                "投稿"@,
                pressed,
            ) && brings(buttons->0[0], "post"@, "exec"@, p)
            &&& post is None && choices.len() > 0 ==> buttons->0.len() == choices.len()
            &&& post is None ==> forall|i: int|
                0 <= i < choices.len() ==> shown_as(
                    #[trigger] buttons->0[i],
                    choices[i],
                    choices[i],
                    if danger {
                        Some("danger"@)
                    } else {
                        None
                    },
                ) && brings(
                    buttons->0[i],
                    choices[i],
                    "action"@,
                    match action {
                        Some(a) => a,
                        None => JsonView::Null,
                    },
                )
            &&& post is None && choices.len() == 0 ==> (action matches Some(a) ==> buttons->0.len()
                == 1 && shown_as(buttons->0[0], "approve"@, "承認"@, pressed) && brings(
                buttons->0[0],
                "approve"@,
                "action"@,
                a,
            ))
        }),
{
    lemma_styles();
}

proof fn lemma_styles()
    ensures
        "danger"@ != "primary"@,
{
    reveal_strlit("danger");
    reveal_strlit("primary");
    assert("danger"@.len() != "primary"@.len());
}

/// The button that closes an ask reads `無視`, is red, asks no second time, and brings back a
/// no-op for the daemon.
pub proof fn the_closing_button_brings_a_no_op()
    ensures
        ignore_button().action_id == "ignore"@,
        ignore_button().label == "無視"@,
        ignore_button().style == Some("danger"@),
        ignore_button().confirm is None,
        brings(
            ignore_button(),
            "ignore"@,
            "exec"@,
            JsonView::Object(map!["type"@ => JsonView::Text("ignore"@)]),
        ),
{
}

/// What `ask` promises to be read back from the positive buttons is what they were given.
pub proof fn values_read_back_are_those_given(
    action: Option<JsonView>,
    post: Option<JsonView>,
    choices: Seq<Seq<char>>,
    danger: bool,
)
    requires
        positive_buttons(action, post, choices, danger) is Some,
    ensures
        ({
            let buttons = positive_buttons(action, post, choices, danger)->0;
            let values = positive_values(action, post, choices);
            &&& values.len() == buttons.len()
            &&& forall|i: int|
                #![trigger values[i]]
                #![trigger buttons[i]]
                0 <= i < values.len() ==> buttons[i].value == Some(json_written(values[i]))
        }),
        ignore_button().value == Some(json_written(ignore_value())),
{
}

/// The permalink of a thread is asked for if and only if the routing of the post names both the
/// channel and the thread.
pub proof fn which_permalink_is_asked_for(post: JsonView)
    ensures
        post_thread(post) == (match (text_field(post, "channel"@), text_field(post, "thread"@)) {
            (Some(channel), Some(thread)) => Some((channel, thread)),
            _ => None,
        }),
{
}

// --- the control channel ---

proof fn lemma_dm_keys()
    ensures
        "ts"@ != "user"@,
        "ts"@ != "bot_id"@,
        "ts"@ != "text"@,
        "ts"@ != "open"@,
        "user"@ != "bot_id"@,
        "user"@ != "text"@,
        "user"@ != "open"@,
        "bot_id"@ != "text"@,
        "bot_id"@ != "open"@,
        "text"@ != "open"@,
{
    reveal_strlit("ts");
    reveal_strlit("user");
    reveal_strlit("bot_id");
    reveal_strlit("text");
    reveal_strlit("open");
    assert("ts"@.len() == 2);
    assert("user"@.len() == 4);
    assert("bot_id"@.len() == 6);
    assert("text"@.len() == 4);
    assert("open"@.len() == 4);
    assert("user"@[0] != "text"@[0]);
    assert("user"@[0] != "open"@[0]);
    assert("text"@[0] != "open"@[0]);
}

/// A message of the control channel is told by its timestamp, its author, its section text or
/// else its plain text, and whether any of its blocks holds buttons.
pub proof fn control_messages_are_told(m: HistoryMessage)
    ensures
        ({
            let blocks = m.content@.blocks;
            let open = blocks matches Some(b) && exists|i: int|
                0 <= i < b.len() && (#[trigger] b[i]).kind is Actions;
            let j = dm_json(m);
            &&& has_text(j, "ts"@, Some(m.ts@))
            &&& has_text(j, "user"@, opt_text(m.user))
            &&& has_text(j, "bot_id"@, opt_text(m.bot_id))
            &&& has_text(
                j,
                "text"@,
                match section_text_of(blocks) {
                    Some(t) => Some(t),
                    None => opt_text(m.content.text),
                },
            )
            &&& has_field(j, "open"@, JsonView::Bool(open))
            &&& is_open(blocks) == open
        }),
{
    lemma_dm_keys();
    let blocks = m.content@.blocks;
    if let Some(b) = blocks {
        if any_buttons(b) {
            let i = choose|i: int| buttons_at(b, i);
            assert(b[i].kind is Actions);
        }
        if exists|i: int| 0 <= i < b.len() && (#[trigger] b[i]).kind is Actions {
            let i = choose|i: int| 0 <= i < b.len() && (#[trigger] b[i]).kind is Actions;
            assert(buttons_at(b, i));
        }
    }
}

// --- answers ---

proof fn lemma_body_keys()
    ensures
        "decision"@ != "action"@,
        "decision"@ != "exec"@,
        "decision"@ != "ask_ts"@,
        "decision"@ != "result"@,
        "action"@ != "exec"@,
        "action"@ != "ask_ts"@,
        "action"@ != "result"@,
        "exec"@ != "ask_ts"@,
        "exec"@ != "result"@,
        "ask_ts"@ != "result"@,
{
    reveal_strlit("decision");
    reveal_strlit("action");
    reveal_strlit("exec");
    reveal_strlit("ask_ts");
    reveal_strlit("result");
    assert("decision"@.len() == 8);
    assert("action"@.len() == 6);
    assert("exec"@.len() == 4);
    assert("ask_ts"@.len() == 6);
    assert("result"@.len() == 6);
    assert("action"@[1] != "ask_ts"@[1]);
    assert("action"@[0] != "result"@[0]);
    assert("ask_ts"@[0] != "result"@[0]);
}

/// A free-text answer is stored as a pending confirmation in the control channel, by the time
/// of the reply; it names the ask and brings back the ask's routing.
pub proof fn a_free_text_answer_points_at_the_ask(
    db: DbView,
    channel: Seq<char>,
    ask_ts: Seq<char>,
    reply_ts: Seq<char>,
    routing: JsonView,
    now: Seq<char>,
)
    ensures
        ({
            let after = answer_stored(db, channel, ask_ts, reply_ts, routing, now);
            let row = after.messages.last();
            let body = answer_body(routing, ask_ts);
            &&& after.messages.drop_last() == db.messages
            &&& after.meta == db.meta
            &&& row.pk == db.last_pk + 1
            &&& row.kind == "confirmation"@
            &&& row.channel == Some(channel)
            &&& row.thread_ts is None
            &&& row.ts == reply_ts
            &&& row.status == "pending"@
            &&& row.created_at == now
            &&& row.body == json_written(body)
            &&& has_text(body, "decision"@, Some("text"@))
            &&& has_field(body, "action"@, routing)
            &&& has_text(body, "ask_ts"@, Some(ask_ts))
        }),
{
    lemma_body_keys();
    assert(answer_stored(db, channel, ask_ts, reply_ts, routing, now).messages.drop_last()
        =~= db.messages);
}

/// A terminal routing of the type `post` posts the draft to the channel and the thread that it
/// names; without a draft or a channel it cannot; of any other type it only closes the ask.
pub proof fn what_terminal_buttons_do(exec: JsonView, draft: Option<Seq<char>>)
    ensures
        text_field(exec, "type"@) != Some("post"@) ==> terminal_of(exec, draft)
            == TerminalView::Close,
        text_field(exec, "type"@) == Some("post"@) && (draft is None || text_field(
            exec,
            "channel"@,
        ) is None) ==> terminal_of(exec, draft) == TerminalView::Incomplete,
        text_field(exec, "type"@) == Some("post"@) ==> (draft matches Some(text) ==> (text_field(
            exec,
            "channel"@,
        ) matches Some(channel) ==> terminal_of(exec, draft) == (TerminalView::Post {
            channel,
            thread: text_field(exec, "thread"@),
            text,
        }))),
{
}

/// The outcome of a terminal button is told as it came out: posted with its timestamp, failed
/// with its cause, or ignored.
pub proof fn terminal_outcomes_are_told(
    channel: Seq<char>,
    thread: Option<Seq<char>>,
    text: Seq<char>,
    ts: Seq<char>,
    e: Seq<char>,
    posted: Result<Seq<char>, Seq<char>>,
)
    ensures
        ({
            let post = TerminalView::Post { channel, thread, text };
            &&& terminal_label(post, Ok(ts)) == "✅ 投稿済み"@
            &&& has_text(terminal_result(post, Ok(ts)), "posted_ts"@, Some(ts))
            &&& terminal_label(post, Err(e)) == "⚠️ 投稿失敗"@
            &&& has_text(terminal_result(post, Err(e)), "error"@, Some(e))
        }),
        terminal_label(TerminalView::Incomplete, posted) == "⚠️ 投稿失敗"@,
        has_text(
            terminal_result(TerminalView::Incomplete, posted),
            "error"@,
            Some("missing draft or channel"@),
        ),
        terminal_label(TerminalView::Close, posted) == "🚫 無視"@,
        has_field(
            terminal_result(TerminalView::Close, posted),
            "ignored"@,
            JsonView::Bool(true),
        ),
{
}

/// The value of a click is that of its button, and the draft is the text of the message that
/// holds the button; what is missing counts as empty.
pub proof fn a_click_is_that_of_its_button(ev: BlockActions)
    ensures
        click_value(ev) == (match ev.clicked {
            Some(c) => match c.value {
                Some(v) => v@,
                None => Seq::empty(),
            },
            None => Seq::empty(),
        }),
        ev.message is None ==> draft_of(ev) is None,
        ev.message matches Some(m) ==> draft_of(ev) == section_text_of(m@.blocks),
{
}

/// What the human decided: what the value says, else which button it was.
pub open spec fn decided(ev: BlockActions, value: JsonView) -> Seq<char> {
    match text_field(value, "decision"@) {
        Some(d) => d,
        None => match ev.clicked {
            Some(c) => c.action_id@,
            None => Seq::empty(),
        },
    }
}

/// A click on a button with a routing under `exec` is done once the daemon has run it, and its
/// row tells the outcome; a click on any other button is pending, and its row brings the
/// consumer the action, or the raw value where there is none. Both rows tell the decision and
/// point at the ask.
pub proof fn clicks_are_done_or_pending(
    ev: BlockActions,
    value: JsonView,
    posted: Result<Seq<char>, Seq<char>>,
)
    ensures
        ({
            let out = click_outcome(ev, value, posted);
            let fields = value->Object_0;
            let terminal = value is Object && fields.contains_key("exec"@);
            &&& terminal ==> {
                let step = terminal_of(fields["exec"@], draft_of(ev));
                &&& out.status == "done"@
                &&& out.label == terminal_label(step, posted)
                &&& has_field(out.body, "exec"@, fields["exec"@])
                &&& has_field(out.body, "result"@, terminal_result(step, posted))
            }
            &&& !terminal ==> {
                &&& out.status == "pending"@
                &&& decided(ev, value) == "approve"@ ==> out.label == "✅ 承認済み"@
                &&& decided(ev, value) != "approve"@ ==> out.label == "✅ "@ + decided(ev, value)
                &&& value is Object && fields.contains_key("action"@) ==> has_field(
                    out.body,
                    "action"@,
                    fields["action"@],
                )
                &&& !(value is Object && fields.contains_key("action"@)) ==> has_text(
                    out.body,
                    "action"@,
                    Some(click_value(ev)),
                )
            }
            &&& has_text(out.body, "decision"@, Some(decided(ev, value)))
            &&& has_text(out.body, "ask_ts"@, opt_text(ev.message_ts))
        }),
{
    lemma_body_keys();
}

/// The row of a click is a confirmation in the channel of the ask, by the time of the ask, or
/// of the click where the ask is unknown; it belongs to no thread.
pub proof fn a_click_row_stands_for_the_ask(
    db: DbView,
    ev: BlockActions,
    status: Seq<char>,
    label: Seq<char>,
    body: JsonView,
    now: Seq<char>,
)
    ensures
        ({
            let after = click_stored(
                db,
                ev,
                crate::confirm::ClickView { status, label, body },
                now,
            );
            let row = after.messages.last();
            &&& after.messages.drop_last() == db.messages
            &&& after.meta == db.meta
            &&& row.pk == db.last_pk + 1
            &&& row.kind == "confirmation"@
            &&& row.channel == opt_text(ev.channel)
            &&& row.thread_ts is None
            &&& ev.message_ts matches Some(t) ==> row.ts == t@
            &&& ev.message_ts is None ==> row.ts == now
            &&& row.status == status
            &&& row.created_at == now
            &&& row.body == json_written(body)
        }),
{
    let out = crate::confirm::ClickView { status, label, body };
    assert(click_stored(db, ev, out, now).messages.drop_last() =~= db.messages);
}

/// The ask that was clicked is edited where its channel and its timestamp are known, and is
/// then what resolving it with the outcome gives.
pub proof fn the_clicked_ask_is_resolved(ev: BlockActions, label: Seq<char>)
    ensures
        click_edit(ev, label) is Some <==> ev.channel is Some && ev.message_ts is Some,
        click_edit(ev, label) matches Some(e) ==> {
            &&& opt_text(ev.channel) == Some(e.channel)
            &&& opt_text(ev.message_ts) == Some(e.ts)
            &&& ev.message matches Some(m) ==> e.content == resolved(m@.blocks, label)
            &&& ev.message is None ==> e.content == resolved(None, label)
        },
{
}

// --- messages as they are held ---

/// What is said of a message is said of its own text, blocks and buttons.
pub proof fn contents_are_what_they_hold(c: Content, b: Block, e: Button, d: Dialog)
    ensures
        c@.text == opt_text(c.text),
        c.blocks is None <==> c@.blocks is None,
        c.blocks matches Some(v) ==> c@.blocks->0.len() == v@.len(),
        c.blocks matches Some(v) ==> forall|i: int|
            0 <= i < v@.len() ==> #[trigger] c@.blocks->0[i] == v@[i]@,
        b@.source == b.source,
        b.kind matches BlockKind::Section(t) ==> b@.kind == BlockKindView::Section(opt_text(t)),
        b.kind matches BlockKind::Context(t) ==> b@.kind == BlockKindView::Context(t@),
        b.kind matches BlockKind::Other ==> b@.kind == BlockKindView::Other,
        b.kind matches BlockKind::Actions(els) ==> (b@.kind matches BlockKindView::Actions(shown)
            && shown.len() == els@.len()),
        b.kind matches BlockKind::Actions(els) ==> forall|i: int|
            0 <= i < els@.len() ==> #[trigger] b@.kind->Actions_0[i] == (match els@[i] {
                Element::Button(x) => ElementView::Button(x@),
                Element::Other => ElementView::Other,
            }),
        e@.action_id == e.action_id@,
        e@.label == e.label@,
        e@.value == opt_text(e.value),
        e@.style == opt_text(e.style),
        e.confirm is None <==> e@.confirm is None,
        e.confirm matches Some(x) ==> e@.confirm == Some(x@),
        d@.title == d.title@,
        d@.text == d.text@,
        d@.confirm == d.confirm@,
        d@.deny == d.deny@,
{
}

/// The routing of an ask is that of its post; else its action, or `null`.
pub proof fn an_ask_routes_its_post_or_its_action(action: Option<JsonView>, post: JsonView)
    ensures
        ask_routing(action, Some(post)) == post,
        action matches Some(a) ==> ask_routing(action, None) == a,
        action is None ==> ask_routing(action, None) == JsonView::Null,
{
}

/// The values of buttons are read back if and only if there is one for each, and each button
/// has a text that denotes the value in its place.
pub proof fn which_buttons_are_read_back(buttons: Seq<ButtonView>, values: Seq<JsonView>)
    ensures
        all_read_back(buttons, values) <==> {
            &&& buttons.len() == values.len()
            &&& forall|i: int|
                0 <= i < buttons.len() ==> (#[trigger] buttons[i]).value is Some && denotes(
                    buttons[i].value->0,
                    values[i],
                )
        },
{
    if buttons.len() == values.len() {
        if all_read_back(buttons, values) {
            assert forall|i: int| 0 <= i < buttons.len() implies (#[trigger] buttons[i]).value is Some
                && denotes(buttons[i].value->0, values[i]) by {
                assert(reads_back(buttons[i], values[i]));
            }
        }
    }
}

/// A routing of a click is read back where it is nested less deep than the value of a button may
/// be, and a value without one needs nothing.
pub proof fn which_routings_are_read_back(decision: Seq<char>, routing: JsonView, none: JsonView)
    requires
        none !is Object,
    ensures
        routing_fits(none),
        json_fits(routing, 126) <==> routing_fits(
            JsonView::Object(map!["decision"@ => JsonView::Text(decision), "exec"@ => routing]),
        ),
        json_fits(routing, 126) <==> routing_fits(
            JsonView::Object(map!["decision"@ => JsonView::Text(decision), "action"@ => routing]),
        ),
{
    reveal_strlit("decision");
    reveal_strlit("exec");
    reveal_strlit("action");
    assert("decision"@.len() == 8 && "exec"@.len() == 4 && "action"@.len() == 6);
}

} // verus!
