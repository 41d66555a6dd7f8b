//! Human confirmation (control channel: bot DM).
//!
//! An ask is a bot DM with buttons. A button is one of two kinds, told apart by the key
//! under which its routing rides in the button value:
//! - terminal (`exec`): the daemon runs it the moment the human clicks. `投稿` posts the
//!   ask's draft under the user token, `無視` (always present) just closes the ask. The
//!   click is still recorded, as a `done` row.
//! - routed (`action`): a choice, or an approval of something else than a post. The
//!   click becomes a `pending` confirmation row that a worker handles later.
//!
//! So one status decides whether an answer reaches the consumer at all. A free-text
//! reply in the ask's thread is always routed. Confirmation rows carry no content: the
//! consumer reads the ask's thread back for the draft and the reply.

use crate::db::{DbError, DbView};
use crate::json::{
    denotes, items_view, json_fits, json_plain, json_read, json_written, parse, parse_or_null,
    raw_marker, read_or_null, text_or_null, to_text, Json, JsonView,
};
use crate::slack::{
    blocks_view, elements_view, opt_blocks, Block, BlockActions, BlockKind, BlockKindView,
    BlockView, Button, ButtonView, Content, ContentView, Dialog, DialogView, Element, ElementView,
    HistoryMessage, Interaction, MessageEvent,
};
use crate::state::{Shared, SharedView};
use crate::text::{
    join, joined, opt_copy, opt_ref, opt_same, opt_str, opt_text, same, texts, trim, trimmed,
};
use vstd::prelude::*;
use vstd::string::*;

verus! {

/// What an optional value is.
pub open spec fn opt_json(o: Option<Json>) -> Option<JsonView> {
    match o {
        Some(j) => Some(j@),
        None => None,
    }
}

// --- reading a message back ---

/// The texts of the section blocks.
pub open spec fn section_parts(blocks: Seq<BlockView>) -> Seq<Seq<char>>
    decreases blocks.len(),
{
    if blocks.len() == 0 {
        Seq::empty()
    } else {
        let before = section_parts(blocks.drop_last());
        match blocks.last().kind {
            BlockKindView::Section(Some(text)) => before.push(text),
            _ => before,
        }
    }
}

/// The text of a message's section blocks, with an empty line between each two.
pub open spec fn section_text_of(blocks: Option<Seq<BlockView>>) -> Option<Seq<char>> {
    match blocks {
        Some(b) => if section_parts(b).len() > 0 {
            Some(joined(section_parts(b), "\n\n"@))
        } else {
            None
        },
        None => None,
    }
}

/// The text of a message's section blocks. An ask's draft lives in one, so that it is
/// recovered without ever riding the size-limited button value.
pub fn section_text(content: &Content) -> (r: Option<String>)
    ensures
        opt_text(r) == section_text_of(content@.blocks),
{
    match &content.blocks {
        Some(blocks) => {
            let mut parts: Vec<String> = Vec::new();
            let ghost all = blocks_view(blocks@);
            let mut i: usize = 0;
            assert(all.take(0) =~= Seq::empty());
            assert(texts(parts@) =~= Seq::empty());
            while i < blocks.len()
                invariant
                    i <= blocks@.len(),
                    all == blocks_view(blocks@),
                    texts(parts@) == section_parts(all.take(i as int)),
                decreases blocks@.len() - i,
            {
                proof {
                    assert(all.take(i + 1).drop_last() =~= all.take(i as int));
                    assert(all.take(i + 1).last() == blocks@[i as int]@);
                }
                if let BlockKind::Section(Some(text)) = &blocks[i].kind {
                    let part = text.clone();
                    assert(texts(parts@.push(part)) =~= texts(parts@).push(part@));
                    parts.push(part);
                }
                i += 1;
            }
            assert(all.take(all.len() as int) =~= all);
            assert(texts(parts@).len() == parts@.len());
            if parts.len() == 0 {
                None
            } else {
                Some(join(&parts, "\n\n"))
            }
        },
        None => None,
    }
}

/// The routing in what a button value denotes: what rides under `exec`, else under
/// `action`.
pub open spec fn routing_in(value: JsonView) -> Option<JsonView> {
    match value.get("exec"@) {
        Some(exec) => Some(exec),
        None => value.get("action"@),
    }
}

/// The routing of an element, if it is a button that carries one.
pub open spec fn element_routing(e: ElementView) -> Option<JsonView> {
    match e {
        ElementView::Button(b) => match b.value {
            Some(value) => match json_read(value) {
                Ok(v) => routing_in(v),
                Err(_) => None,
            },
            None => None,
        },
        ElementView::Other => None,
    }
}

/// The routings of some elements, in order.
pub open spec fn element_routings(elements: Seq<ElementView>) -> Seq<JsonView>
    decreases elements.len(),
{
    if elements.len() == 0 {
        Seq::empty()
    } else {
        let before = element_routings(elements.drop_last());
        match element_routing(elements.last()) {
            Some(routing) => before.push(routing),
            None => before,
        }
    }
}

/// The routings of all buttons of a message, in order.
pub open spec fn routings(blocks: Seq<BlockView>) -> Seq<JsonView>
    decreases blocks.len(),
{
    if blocks.len() == 0 {
        Seq::empty()
    } else {
        let before = routings(blocks.drop_last());
        match blocks.last().kind {
            BlockKindView::Actions(elements) => before + element_routings(elements),
            _ => before,
        }
    }
}

/// Whether a routing is the no-op.
pub open spec fn is_ignore(routing: JsonView) -> bool {
    routing.text_at("type"@) == Some("ignore"@)
}

/// The better of two routings: the earlier, unless it is the no-op and the later is not.
pub open spec fn preferred(best: Option<JsonView>, next: JsonView) -> Option<JsonView> {
    match best {
        Some(routing) => if is_ignore(routing) && !is_ignore(next) {
            Some(next)
        } else {
            Some(routing)
        },
        None => Some(next),
    }
}

/// Whether the first routing that is not the no-op stands at position `i`.
pub open spec fn first_action_at(list: Seq<JsonView>, i: int) -> bool {
    &&& 0 <= i < list.len()
    &&& !is_ignore(list[i])
    &&& forall|j: int| 0 <= j < i ==> is_ignore(#[trigger] list[j])
}

/// The first routing that is not the no-op, else the first.
pub open spec fn chosen(list: Seq<JsonView>) -> Option<JsonView> {
    if exists|i: int| first_action_at(list, i) {
        Some(list[choose|i: int| first_action_at(list, i)])
    } else if list.len() > 0 {
        Some(list[0])
    } else {
        None
    }
}

proof fn lemma_first_action(list: Seq<JsonView>, i: int)
    requires
        first_action_at(list, i),
    ensures
        chosen(list) == Some(list[i]),
{
    let k = choose|k: int| first_action_at(list, k);
    assert(first_action_at(list, k));
    if k < i {
        assert(is_ignore(list[k]));
    } else if i < k {
        assert(is_ignore(list[i]));
    }
}

proof fn lemma_no_action(list: Seq<JsonView>)
    requires
        forall|i: int| !first_action_at(list, i),
    ensures
        forall|i: int| 0 <= i < list.len() ==> is_ignore(#[trigger] list[i]),
    decreases list.len(),
{
    if list.len() > 0 {
        let rest = list.drop_last();
        assert forall|i: int| !first_action_at(rest, i) by {
            if first_action_at(rest, i) {
                assert forall|j: int| 0 <= j < i implies is_ignore(#[trigger] list[j]) by {
                    assert(rest[j] == list[j]);
                }
                assert(first_action_at(list, i));
            }
        }
        lemma_no_action(rest);
        assert forall|i: int| 0 <= i < list.len() implies is_ignore(#[trigger] list[i]) by {
            if i < rest.len() {
                assert(rest[i] == list[i]);
            } else {
                assert forall|j: int| 0 <= j < i implies is_ignore(#[trigger] list[j]) by {
                    assert(rest[j] == list[j]);
                }
                assert(!first_action_at(list, i));
            }
        }
    }
}

/// A further routing is weighed against the one chosen so far.
pub proof fn lemma_chosen_push(list: Seq<JsonView>, next: JsonView)
    ensures
        chosen(list.push(next)) == preferred(chosen(list), next),
{
    let all = list.push(next);
    let n = list.len() as int;
    if exists|i: int| first_action_at(list, i) {
        let i = choose|i: int| first_action_at(list, i);
        assert forall|j: int| 0 <= j < i implies is_ignore(#[trigger] all[j]) by {
            assert(list[j] == all[j]);
        }
        assert(first_action_at(all, i));
        lemma_first_action(list, i);
        lemma_first_action(all, i);
    } else {
        lemma_no_action(list);
        assert forall|j: int| 0 <= j < n implies is_ignore(#[trigger] all[j]) by {
            assert(list[j] == all[j]);
        }
        if n > 0 {
            assert(is_ignore(list[0]));
        }
        if !is_ignore(next) {
            assert(first_action_at(all, n));
            lemma_first_action(all, n);
        } else {
            assert forall|i: int| !first_action_at(all, i) by {}
        }
    }
}

/// The routing that a message's buttons carry.
pub open spec fn routing_of(blocks: Option<Seq<BlockView>>) -> Option<JsonView> {
    match blocks {
        Some(b) => chosen(routings(b)),
        None => None,
    }
}

/// The routing in what a button value denotes.
pub fn routing_in_value(value: &Json) -> (r: Option<Json>)
    ensures
        opt_json(r) == routing_in(value@),
{
    match value.get("exec") {
        Some(exec) => Some(exec.copy()),
        None => match value.get("action") {
            Some(action) => Some(action.copy()),
            None => None,
        },
    }
}

fn button_routing(e: &Element) -> (r: Option<Json>)
    ensures
        opt_json(r) == element_routing(e@),
{
    match e {
        Element::Button(b) => match &b.value {
            Some(value) => match parse(value.as_str()) {
                Ok(v) => routing_in_value(&v),
                Err(_) => None,
            },
            None => None,
        },
        Element::Other => None,
    }
}

fn ignores(routing: &Json) -> (r: bool)
    ensures
        r == is_ignore(routing@),
{
    match routing.text_at("type") {
        Some(t) => same(t, "ignore"),
        None => false,
    }
}

/// The better of two routings: the earlier, unless it is the no-op and the later is not.
pub fn prefer(best: Option<Json>, next: Json) -> (r: Option<Json>)
    ensures
        opt_json(r) == preferred(opt_json(best), next@),
{
    match best {
        Some(b) => if ignores(&b) && !ignores(&next) {
            Some(next)
        } else {
            Some(b)
        },
        None => Some(next),
    }
}

/// The routing that an ask's buttons carry: the first one that is not the no-op, so that
/// a free-text reply to a post ask recovers the post target. None if the message is not
/// one of our asks.
pub fn routing_from_blocks(content: &Content) -> (r: Option<Json>)
    ensures
        opt_json(r) == routing_of(content@.blocks),
{
    let blocks = match &content.blocks {
        Some(b) => b,
        None => return None,
    };
    let ghost all = blocks_view(blocks@);
    let mut best: Option<Json> = None;
    let mut i: usize = 0;
    assert(all.take(0) =~= Seq::empty());
    while i < blocks.len()
        invariant
            i <= blocks@.len(),
            all == blocks_view(blocks@),
            opt_json(best) == chosen(routings(all.take(i as int))),
        decreases blocks@.len() - i,
    {
        let ghost before = routings(all.take(i as int));
        proof {
            assert(all.take(i + 1).drop_last() =~= all.take(i as int));
            assert(all.take(i + 1).last() == blocks@[i as int]@);
        }
        if let BlockKind::Actions(elements) = &blocks[i].kind {
            let ghost els = elements_view(elements@);
            let mut k: usize = 0;
            proof {
                assert(els.take(0) =~= Seq::empty());
                assert(before + element_routings(els.take(0)) =~= before);
            }
            while k < elements.len()
                invariant
                    k <= elements@.len(),
                    els == elements_view(elements@),
                    opt_json(best) == chosen(before + element_routings(els.take(k as int))),
                decreases elements@.len() - k,
            {
                let ghost seen = element_routings(els.take(k as int));
                proof {
                    assert(els.take(k + 1).drop_last() =~= els.take(k as int));
                    assert(els.take(k + 1).last() == elements@[k as int]@);
                }
                if let Some(routing) = button_routing(&elements[k]) {
                    proof {
                        assert(before + seen.push(routing@) =~= (before + seen).push(routing@));
                        lemma_chosen_push(before + seen, routing@);
                    }
                    best = prefer(best, routing);
                }
                k += 1;
            }
            assert(els.take(els.len() as int) =~= els);
        }
        i += 1;
    }
    assert(all.take(all.len() as int) =~= all);
    best
}

// --- resolving an ask ---

/// Whether a block holds buttons.
pub open spec fn has_buttons(b: BlockView) -> bool {
    b.kind is Actions
}

/// The blocks of a message without those that hold buttons.
pub open spec fn without_buttons(blocks: Option<Seq<BlockView>>) -> Seq<BlockView> {
    match blocks {
        Some(b) => b.filter(|x: BlockView| !has_buttons(x)),
        None => Seq::empty(),
    }
}

/// A context line.
pub open spec fn context_line(text: Seq<char>) -> BlockView {
    BlockView { kind: BlockKindView::Context(text), source: None }
}

/// A message with its buttons replaced by an outcome line.
pub open spec fn resolved(blocks: Option<Seq<BlockView>>, label: Seq<char>) -> ContentView {
    let kept = without_buttons(blocks);
    ContentView {
        text: Some(label),
        blocks: if kept.len() == 0 {
            None
        } else {
            Some(kept.push(context_line(label)))
        },
    }
}

fn copy_block(b: &Block) -> (r: Option<Block>)
    ensures
        match r {
            Some(c) => !has_buttons(b@) && c@ == b@,
            None => has_buttons(b@),
        },
{
    let kind = match &b.kind {
        BlockKind::Section(text) => BlockKind::Section(opt_copy(text)),
        BlockKind::Context(text) => BlockKind::Context(text.clone()),
        BlockKind::Actions(_) => return None,
        BlockKind::Other => BlockKind::Other,
    };
    Some(Block { kind, source: b.source })
}

/// Rebuild a confirmation message with the buttons replaced by an outcome line and the
/// other blocks kept, so that the DM keeps its content once it is resolved.
pub fn resolved_content(blocks: &Option<Vec<Block>>, label: &str) -> (r: Content)
    ensures
        r@ == resolved(opt_blocks(*blocks), label@),
{
    let mut kept: Vec<Block> = Vec::new();
    let ghost keeps = |x: BlockView| !has_buttons(x);
    if let Some(list) = blocks {
        let ghost all = blocks_view(list@);
        let mut i: usize = 0;
        proof {
            reveal(Seq::filter);
            assert(all.take(0).filter(keeps) =~= blocks_view(kept@));
        }
        while i < list.len()
            invariant
                i <= list@.len(),
                all == blocks_view(list@),
                keeps == |x: BlockView| !has_buttons(x),
                blocks_view(kept@) == all.take(i as int).filter(keeps),
            decreases list@.len() - i,
        {
            proof {
                reveal(Seq::filter);
                assert(all.take(i + 1).drop_last() =~= all.take(i as int));
                assert(all.take(i + 1).last() == list@[i as int]@);
            }
            if let Some(b) = copy_block(&list[i]) {
                assert(blocks_view(kept@.push(b)) =~= blocks_view(kept@).push(b@));
                kept.push(b);
            }
            i += 1;
        }
        assert(all.take(all.len() as int) =~= all);
    } else {
        assert(blocks_view(kept@) =~= Seq::empty());
    }
    assert(blocks_view(kept@) == without_buttons(opt_blocks(*blocks)));
    assert(blocks_view(kept@).len() == kept@.len());
    if kept.len() == 0 {
        return Content { text: Some(label.to_owned()), blocks: None };
    }
    let line = Block { kind: BlockKind::Context(label.to_owned()), source: None };
    assert(blocks_view(kept@.push(line)) =~= blocks_view(kept@).push(line@));
    kept.push(line);
    Content { text: Some(label.to_owned()), blocks: Some(kept) }
}

// --- asking ---

/// The value of a routed button.
pub open spec fn routed_value(decision: Seq<char>, action: JsonView) -> JsonView {
    JsonView::Object(map!["decision"@ => JsonView::Text(decision), "action"@ => action])
}

/// The value of a terminal button.
pub open spec fn terminal_value(decision: Seq<char>, exec: JsonView) -> JsonView {
    JsonView::Object(map!["decision"@ => JsonView::Text(decision), "exec"@ => exec])
}

/// A button with a value.
pub open spec fn plain_button(decision: Seq<char>, label: Seq<char>, value: JsonView) -> ButtonView {
    ButtonView {
        action_id: decision,
        label,
        value: Some(json_written(value)),
        style: None,
        confirm: None,
    }
}

/// A value that rides in a button next to the decision is read back, if it is plain one
/// level deeper.
proof fn lemma_button_value_plain(decision: Seq<char>, routing: JsonView)
    requires
        json_fits(routing, 126),
    ensures
        json_plain(routed_value(decision, routing)),
        json_plain(terminal_value(decision, routing)),
{
    reveal_strlit("$serde_json::private::RawValue");
    reveal_strlit("decision");
    reveal_strlit("action");
    reveal_strlit("exec");
    reveal_with_fuel(json_fits, 2);
    assert(raw_marker().len() == 30);
}

/// One interactive button that carries its decision. The value embeds both the decision
/// (what the human chose) and the opaque action (what the consumer executes), so that
/// the click brings everything back.
pub fn decision_button(decision: &str, label: &str, action: &Json) -> (r: Button)
    ensures
        r@ == plain_button(decision@, label@, routed_value(decision@, action@)),
        json_fits(action@, 126) ==> denotes(
            json_written(routed_value(decision@, action@)),
            routed_value(decision@, action@),
        ),
{
    let value = to_text(
        &Json::object().with("decision", Json::text(decision)).with("action", action.copy()),
    );
    proof {
        if json_fits(action@, 126) {
            lemma_button_value_plain(decision@, action@);
        }
    }
    Button {
        action_id: decision.to_owned(),
        label: label.to_owned(),
        value: Some(value),
        style: None,
        confirm: None,
    }
}

/// A terminal button: its routing rides under `exec`, so that the daemon runs it on the
/// click instead of queuing it.
pub fn exec_button(decision: &str, label: &str, exec: &Json) -> (r: Button)
    ensures
        r@ == plain_button(decision@, label@, terminal_value(decision@, exec@)),
        json_fits(exec@, 126) ==> denotes(
            json_written(terminal_value(decision@, exec@)),
            terminal_value(decision@, exec@),
        ),
{
    let value = to_text(
        &Json::object().with("decision", Json::text(decision)).with("exec", exec.copy()),
    );
    proof {
        if json_fits(exec@, 126) {
            lemma_button_value_plain(decision@, exec@);
        }
    }
    Button {
        action_id: decision.to_owned(),
        label: label.to_owned(),
        value: Some(value),
        style: None,
        confirm: None,
    }
}

/// The second question before an irreversible step.
pub open spec fn danger_dialog() -> DialogView {
    DialogView {
        title: "実行の確認"@,
        text: "この操作を実行します。よろしいですか？"@,
        confirm: "実行する"@,
        deny: "やめる"@,
    }
}

/// The confirm dialog for `--danger`.
pub fn confirm_dialog() -> (r: Dialog)
    ensures
        r@ == danger_dialog(),
{
    Dialog {
        title: "実行の確認".to_owned(),
        text: "この操作を実行します。よろしいですか？".to_owned(),
        confirm: "実行する".to_owned(),
        deny: "やめる".to_owned(),
    }
}

/// A button with a style, and with a confirm dialog where it is dangerous.
pub open spec fn styled(b: ButtonView, danger: bool) -> ButtonView {
    ButtonView {
        style: Some(
            if danger {
                "danger"@
            } else {
                "primary"@
            },
        ),
        confirm: if danger {
            Some(danger_dialog())
        } else {
            None
        },
        ..b
    }
}

fn with_style(b: Button, danger: bool) -> (r: Button)
    requires
        b.confirm is None,
    ensures
        r@ == styled(b@, danger),
{
    Button {
        action_id: b.action_id,
        label: b.label,
        value: b.value,
        style: Some(
            if danger {
                "danger".to_owned()
            } else {
                "primary".to_owned()
            },
        ),
        confirm: if danger {
            Some(confirm_dialog())
        } else {
            None
        },
    }
}

/// A text in a field, owned.
fn owned_text_at(j: &Json, key: &str) -> (r: Option<String>)
    ensures
        opt_text(r) == j@.text_at(key@),
{
    match j.text_at(key) {
        Some(s) => Some(s.to_owned()),
        None => None,
    }
}

/// The channel and the thread of a post, where its routing names both: the permalink of
/// that thread is shown in the ask.
pub open spec fn post_thread(post: JsonView) -> Option<(Seq<char>, Seq<char>)> {
    match (post.text_at("channel"@), post.text_at("thread"@)) {
        (Some(channel), Some(thread)) => Some((channel, thread)),
        _ => None,
    }
}

/// The channel and the thread of which an ask shows the permalink, if it shows one.
pub fn permalink_target(post: &Option<Json>) -> (r: Option<(String, String)>)
    ensures
        match *post {
            Some(p) => match r {
                Some((channel, thread)) => post_thread(p@) == Some((channel@, thread@)),
                None => post_thread(p@) is None,
            },
            None => r is None,
        },
{
    match post {
        Some(p) => match (owned_text_at(p, "channel"), owned_text_at(p, "thread")) {
            (Some(channel), Some(thread)) => Some((channel, thread)),
            _ => None,
        },
        None => None,
    }
}

/// The line that says where a post goes: a mention of the channel, and the permalink of
/// the thread where there is one. None without a channel.
pub open spec fn destination(post: JsonView, permalink: Option<Seq<char>>) -> Option<Seq<char>> {
    match post.text_at("channel"@) {
        Some(channel) => {
            let line = "投稿先: "@ + ("<#"@ + channel + ">"@);
            match (post.text_at("thread"@), permalink) {
                (Some(_), Some(link)) => Some(line + " (<"@ + link + "|該当スレッド>)"@),
                _ => Some(line),
            }
        },
        None => None,
    }
}

/// The line that says where a post goes. `permalink` is what Slack gave for the thread;
/// where it gave none, the line is the bare mention.
pub fn post_destination_line(post: &Json, permalink: Option<&str>) -> (r: Option<String>)
    ensures
        opt_text(r) == destination(post@, opt_str(permalink)),
{
    match post.text_at("channel") {
        Some(channel) => {
            let mention = "<#".to_owned().concat(channel).concat(">");
            let line = "投稿先: ".to_owned().concat(mention.as_str());
            match (post.text_at("thread"), permalink) {
                (Some(_), Some(link)) => Some(
                    line.concat(" (<").concat(link).concat("|該当スレッド>)"),
                ),
                _ => Some(line),
            }
        },
        None => None,
    }
}

/// The human with whom the control channel is opened.
pub fn open_dm(shared: &Shared) -> (r: Result<String, String>)
    ensures
        match shared@.my_user_id {
            Some(me) => r matches Ok(user) && user@ == me,
            None => r matches Err(e) && e@ == "my_user_id unknown"@,
        },
{
    match &shared.my_user_id {
        Some(me) => Ok(me.clone()),
        None => Err("my_user_id unknown".to_owned()),
    }
}

/// The routing of the button that closes an ask.
pub open spec fn ignore_routing() -> JsonView {
    JsonView::Object(map!["type"@ => JsonView::Text("ignore"@)])
}

/// The button that closes an ask.
pub open spec fn ignore_button() -> ButtonView {
    ButtonView {
        style: Some("danger"@),
        ..plain_button("ignore"@, "無視"@, ignore_value())
    }
}

/// The action that rides in choices: `null` where the ask has none.
pub open spec fn action_or_null(action: Option<JsonView>) -> JsonView {
    match action {
        Some(a) => a,
        None => JsonView::Null,
    }
}

/// The button of a choice. A dangerous one is styled and asks a second time.
pub open spec fn choice_button(choice: Seq<char>, action: JsonView, danger: bool) -> ButtonView {
    let plain = plain_button(choice, choice, routed_value(choice, action));
    if danger {
        styled(plain, true)
    } else {
        plain
    }
}

/// The positive buttons of an ask: `投稿` where it is a post, else one per choice, else
/// `承認` where it has an action. None where it has none of these.
pub open spec fn positive_buttons(
    action: Option<JsonView>,
    post: Option<JsonView>,
    choices: Seq<Seq<char>>,
    danger: bool,
) -> Option<Seq<ButtonView>> {
    match (post, action) {
        (Some(p), _) => Some(
            seq![styled(plain_button("post"@, "投稿"@, terminal_value("post"@, p)), danger)],
        ),
        (None, _) if choices.len() > 0 => Some(
            choices.map_values(
                |c: Seq<char>| choice_button(c, action_or_null(action), danger),
            ),
        ),
        (None, Some(a)) => Some(
            seq![styled(plain_button("approve"@, "承認"@, routed_value("approve"@, a)), danger)],
        ),
        (None, None) => None,
    }
}

/// What the values of the positive buttons of an ask denote: each its decision and its
/// routing.
pub open spec fn positive_values(
    action: Option<JsonView>,
    post: Option<JsonView>,
    choices: Seq<Seq<char>>,
) -> Seq<JsonView> {
    match (post, action) {
        (Some(p), _) => seq![terminal_value("post"@, p)],
        (None, _) if choices.len() > 0 => choices.map_values(
            |c: Seq<char>| routed_value(c, action_or_null(action)),
        ),
        (None, Some(a)) => seq![routed_value("approve"@, a)],
        (None, None) => Seq::empty(),
    }
}

/// What the value of the button that closes an ask denotes.
pub open spec fn ignore_value() -> JsonView {
    terminal_value("ignore"@, ignore_routing())
}

/// Whether a value is read back from a button.
pub open spec fn reads_back(b: ButtonView, value: JsonView) -> bool {
    b.value matches Some(text) && denotes(text, value)
}

/// Whether each value is read back from the button in its place.
pub open spec fn all_read_back(buttons: Seq<ButtonView>, values: Seq<JsonView>) -> bool {
    &&& buttons.len() == values.len()
    &&& forall|i: int| 0 <= i < buttons.len() ==> reads_back(#[trigger] buttons[i], values[i])
}

/// The actions block of an ask: its positive buttons, then the one that closes it.
pub open spec fn button_block(buttons: Seq<ButtonView>) -> BlockView {
    BlockView {
        kind: BlockKindView::Actions(
            buttons.push(ignore_button()).map_values(|b: ButtonView| ElementView::Button(b)),
        ),
        source: None,
    }
}

/// The context lines of an ask: the one given, and the destination of its post.
pub open spec fn context_parts(
    post: Option<JsonView>,
    context: Option<Seq<char>>,
    permalink: Option<Seq<char>>,
) -> Seq<Seq<char>> {
    let given = match context {
        Some(c) => seq![c],
        None => Seq::empty(),
    };
    match post {
        Some(p) => match destination(p, permalink) {
            Some(line) => given.push(line),
            None => given,
        },
        None => given,
    }
}

/// The blocks of an ask: the draft, the context lines if there are any, the buttons.
pub open spec fn ask_blocks(
    text: Seq<char>,
    buttons: Seq<ButtonView>,
    parts: Seq<Seq<char>>,
) -> Seq<BlockView> {
    let draft = BlockView { kind: BlockKindView::Section(Some(text)), source: None };
    if parts.len() > 0 {
        seq![draft, context_line(joined(parts, "\n"@)), button_block(buttons)]
    } else {
        seq![draft, button_block(buttons)]
    }
}

/// The message that an ask posts.
pub open spec fn ask_message(
    text: Seq<char>,
    buttons: Seq<ButtonView>,
    parts: Seq<Seq<char>>,
) -> ContentView {
    ContentView { text: None, blocks: Some(ask_blocks(text, buttons, parts)) }
}

/// The routing that an ask carries: that of its post, else its action.
pub open spec fn ask_routing(action: Option<JsonView>, post: Option<JsonView>) -> JsonView {
    match post {
        Some(p) => p,
        None => action_or_null(action),
    }
}

/// Whether a button's value is read back to a value that carries a routing.
pub open spec fn carries(b: ButtonView, routing: JsonView) -> bool {
    element_routing(ElementView::Button(b)) == Some(routing)
}

proof fn lemma_carries_terminal(b: ButtonView, decision: Seq<char>, exec: JsonView)
    requires
        reads_back(b, terminal_value(decision, exec)),
    ensures
        carries(b, exec),
{
    reveal_strlit("decision");
    reveal_strlit("exec");
    assert("decision"@.len() != "exec"@.len());
}

proof fn lemma_carries_routed(b: ButtonView, decision: Seq<char>, action: JsonView)
    requires
        reads_back(b, routed_value(decision, action)),
    ensures
        carries(b, action),
{
    reveal_strlit("decision");
    reveal_strlit("exec");
    reveal_strlit("action");
    assert("decision"@.len() != "exec"@.len());
    assert("decision"@.len() != "action"@.len());
    assert("action"@.len() != "exec"@.len());
}

/// Buttons from which the values of an ask are read back carry its routing, and the one that
/// closes the ask carries the no-op.
pub proof fn asked_buttons_carry_routing(
    action: Option<JsonView>,
    post: Option<JsonView>,
    choices: Seq<Seq<char>>,
    buttons: Seq<ButtonView>,
)
    requires
        all_read_back(buttons, positive_values(action, post, choices)),
        reads_back(ignore_button(), ignore_value()),
    ensures
        forall|i: int|
            0 <= i < buttons.len() ==> carries(#[trigger] buttons[i], ask_routing(action, post)),
        carries(ignore_button(), ignore_routing()),
{
    lemma_carries_terminal(ignore_button(), "ignore"@, ignore_routing());
    assert forall|i: int| 0 <= i < buttons.len() implies carries(
        #[trigger] buttons[i],
        ask_routing(action, post),
    ) by {
        assert(reads_back(buttons[i], positive_values(action, post, choices)[i]));
        if let Some(p) = post {
            lemma_carries_terminal(buttons[i], "post"@, p);
        } else if choices.len() > 0 {
            lemma_carries_routed(buttons[i], choices[i], action_or_null(action));
        } else if let Some(a) = action {
            lemma_carries_routed(buttons[i], "approve"@, a);
        }
    }
}

proof fn lemma_ignore_routing()
    ensures
        is_ignore(ignore_routing()),
        json_fits(ignore_routing(), 126),
{
    reveal_strlit("$serde_json::private::RawValue");
    reveal_strlit("type");
    reveal_with_fuel(json_fits, 2);
    assert(raw_marker().len() == 30);
}

proof fn lemma_chosen_first(list: Seq<JsonView>, routing: JsonView)
    requires
        list.len() >= 1,
        forall|i: int|
            0 <= i < list.len() ==> list[i] == routing || (i > 0 && is_ignore(#[trigger] list[i])),
        list[0] == routing,
    ensures
        chosen(list) == Some(routing),
{
    if is_ignore(routing) {
        assert forall|i: int| !first_action_at(list, i) by {}
    } else {
        assert(first_action_at(list, 0));
        lemma_first_action(list, 0);
    }
}

/// The routings of buttons that all carry one.
proof fn lemma_element_routings(elements: Seq<ElementView>, values: Seq<JsonView>)
    requires
        elements.len() == values.len(),
        forall|i: int|
            0 <= i < elements.len() ==> element_routing(#[trigger] elements[i]) == Some(values[i]),
    ensures
        element_routings(elements) == values,
    decreases elements.len(),
{
    if elements.len() > 0 {
        assert(element_routing(elements[elements.len() - 1]) == Some(values[values.len() - 1]));
        lemma_element_routings(elements.drop_last(), values.drop_last());
        assert(values.drop_last().push(values.last()) =~= values);
    } else {
        assert(values =~= Seq::empty());
    }
}

/// An ask is read back: its draft, and its routing where every positive button carries it
/// and the last button the no-op.
pub proof fn ask_reads_back(
    text: Seq<char>,
    buttons: Seq<ButtonView>,
    parts: Seq<Seq<char>>,
    routing: JsonView,
)
    requires
        buttons.len() > 0,
    ensures
        section_text_of(ask_message(text, buttons, parts).blocks) == Some(text),
        carries(ignore_button(), ignore_routing()) && (forall|i: int|
            0 <= i < buttons.len() ==> carries(#[trigger] buttons[i], routing)) ==> routing_of(
            ask_message(text, buttons, parts).blocks,
        ) == Some(routing),
{
    let blocks = ask_blocks(text, buttons, parts);
    let n = blocks.len() as int;
    let els = buttons.push(ignore_button()).map_values(|b: ButtonView| ElementView::Button(b));
    let head = blocks.drop_last();
    reveal_with_fuel(section_parts, 4);
    reveal_with_fuel(routings, 4);
    if parts.len() > 0 {
        assert(head.drop_last().drop_last() =~= Seq::empty());
        assert(head.drop_last().last() == blocks[0]);
        assert(head.last() == blocks[1]);
    } else {
        assert(head.drop_last() =~= Seq::empty());
        assert(head.last() == blocks[0]);
    }
    assert(section_parts(blocks) =~= seq![text]);
    assert(routings(head) =~= Seq::empty());
    assert(routings(blocks) =~= element_routings(els));
    if carries(ignore_button(), ignore_routing()) && (forall|i: int|
        0 <= i < buttons.len() ==> carries(#[trigger] buttons[i], routing)) {
        let values = Seq::new(buttons.len(), |i: int| routing).push(ignore_routing());
        assert forall|i: int| 0 <= i < els.len() implies element_routing(#[trigger] els[i]) == Some(
            values[i],
        ) by {
            if i < buttons.len() {
                assert(carries(buttons[i], routing));
            }
        }
        lemma_element_routings(els, values);
        lemma_ignore_routing();
        assert forall|i: int| 0 <= i < values.len() implies values[i] == routing || (i > 0
            && is_ignore(#[trigger] values[i])) by {}
        lemma_chosen_first(values, routing);
    }
}

spec fn buttons_view(v: Seq<Button>) -> Seq<ButtonView> {
    v.map_values(|b: Button| b@)
}

fn make_positive(
    action: &Option<Json>,
    post: &Option<Json>,
    choices: &Vec<String>,
    danger: bool,
) -> (r: Option<Vec<Button>>)
    ensures
        match r {
            Some(v) => {
                &&& v@.len() > 0
                &&& positive_buttons(
                    opt_json(*action),
                    opt_json(*post),
                    texts(choices@),
                    danger,
                ) == Some(buttons_view(v@))
                &&& json_fits(ask_routing(opt_json(*action), opt_json(*post)), 126)
                    ==> all_read_back(
                    buttons_view(v@),
                    positive_values(opt_json(*action), opt_json(*post), texts(choices@)),
                )
            },
            None => positive_buttons(
                opt_json(*action),
                opt_json(*post),
                texts(choices@),
                danger,
            ) is None,
        },
{
    let mut out: Vec<Button> = Vec::new();
    if let Some(p) = post {
        // Terminal: the daemon posts the draft on click, no consumer hop.
        let b = with_style(exec_button("post", "投稿", p), danger);
        out.push(b);
        assert(buttons_view(out@) =~= seq![b@]);
        Some(out)
    } else if choices.len() > 0 {
        let routed = match action {
            Some(a) => a.copy(),
            None => Json::Null,
        };
        let ghost make = |c: Seq<char>| choice_button(c, action_or_null(opt_json(*action)), danger);
        let ghost values = positive_values(opt_json(*action), opt_json(*post), texts(choices@));
        let mut i: usize = 0;
        while i < choices.len()
            invariant
                i <= choices@.len(),
                routed@ == action_or_null(opt_json(*action)),
                make == |c: Seq<char>|
                    choice_button(c, action_or_null(opt_json(*action)), danger),
                out@.len() == i,
                forall|k: int| 0 <= k < i ==> (#[trigger] out@[k])@ == make(choices@[k]@),
                json_fits(routed@, 126) ==> forall|k: int|
                    0 <= k < i ==> reads_back(
                        (#[trigger] out@[k])@,
                        routed_value(choices@[k]@, routed@),
                    ),
            decreases choices@.len() - i,
        {
            let plain = decision_button(choices[i].as_str(), choices[i].as_str(), &routed);
            let b = if danger {
                with_style(plain, true)
            } else {
                plain
            };
            out.push(b);
            i += 1;
        }
        proof {
            assert(buttons_view(out@) =~= texts(choices@).map_values(make));
            if json_fits(routed@, 126) {
                assert forall|k: int| 0 <= k < out@.len() implies reads_back(
                    #[trigger] buttons_view(out@)[k],
                    values[k],
                ) by {
                    assert(reads_back(out@[k]@, routed_value(choices@[k]@, routed@)));
                }
            }
        }
        Some(out)
    } else if let Some(a) = action {
        // Routed escape hatch: an approval of something else than a post.
        let b = with_style(decision_button("approve", "承認", a), danger);
        out.push(b);
        assert(buttons_view(out@) =~= seq![b@]);
        Some(out)
    } else {
        None
    }
}

fn make_ignore() -> (r: Button)
    ensures
        r@ == ignore_button(),
        reads_back(r@, ignore_value()),
{
    let b = exec_button(
        "ignore",
        "無視",
        &Json::object().with("type", Json::text("ignore")),
    );
    proof {
        lemma_ignore_routing();
    }
    Button {
        action_id: b.action_id,
        label: b.label,
        value: b.value,
        style: Some("danger".to_owned()),
        confirm: b.confirm,
    }
}

/// The message with which to ask the human. The interaction shape is declared by the
/// caller; the daemon owns the blocks. One kind of positive button is built, then `無視`
/// is appended:
/// - `post`: terminal `投稿`, on which the daemon posts the ask's draft.
/// - `choices`: routed, one button per choice.
/// - `action` alone: routed `承認`.
/// - `danger`: each positive button gets danger styling and a confirm dialog.
///
/// `permalink` is what Slack gave for the thread of [`permalink_target`]. The draft is
/// read back from the message; so is the routing, where it is plain, and from each button
/// its decision and its routing.
pub fn ask(
    text: &str,
    action: &Option<Json>,
    post: &Option<Json>,
    choices: &Vec<String>,
    danger: bool,
    context: &Option<String>,
    permalink: Option<&str>,
) -> (r: Result<Content, String>)
    ensures
        match (
            positive_buttons(opt_json(*action), opt_json(*post), texts(choices@), danger),
            r,
        ) {
            (Some(buttons), Ok(content)) => {
                &&& content@ == ask_message(
                    text@,
                    buttons,
                    context_parts(opt_json(*post), opt_text(*context), opt_str(permalink)),
                )
                &&& section_text_of(content@.blocks) == Some(text@)
                &&& reads_back(ignore_button(), ignore_value())
                &&& json_fits(ask_routing(opt_json(*action), opt_json(*post)), 126) ==> {
                    &&& routing_of(content@.blocks) == Some(
                        ask_routing(opt_json(*action), opt_json(*post)),
                    )
                    &&& all_read_back(
                        buttons,
                        positive_values(opt_json(*action), opt_json(*post), texts(choices@)),
                    )
                }
            },
            (None, Err(e)) => e@ == "ask needs one of: post, choices, action"@,
            _ => false,
        },
{
    let positive = match make_positive(action, post, choices, danger) {
        Some(v) => v,
        None => return Err("ask needs one of: post, choices, action".to_owned()),
    };
    let ghost shown = buttons_view(positive@);
    let mut elements: Vec<Element> = Vec::new();
    for b in it: positive.into_iter()
        invariant
            shown == buttons_view(it.seq()),
            elements@.len() == it.index(),
            forall|k: int|
                0 <= k < it.index() ==> (#[trigger] elements@[k])@ == ElementView::Button(shown[k]),
    {
        elements.push(Element::Button(b));
    }
    let last = make_ignore();
    elements.push(Element::Button(last));
    assert(elements_view(elements@) =~= shown.push(ignore_button()).map_values(
        |b: ButtonView| ElementView::Button(b),
    ));

    let mut parts: Vec<String> = Vec::new();
    if let Some(c) = context {
        parts.push(c.clone());
    }
    let ghost given = texts(parts@);
    proof {
        if let Some(c) = opt_text(*context) {
            assert(given =~= seq![c]);
        } else {
            assert(given =~= Seq::empty());
        }
    }
    if let Some(p) = post {
        if let Some(line) = post_destination_line(p, permalink) {
            assert(texts(parts@.push(line)) =~= given.push(line@));
            parts.push(line);
        }
    }
    let ghost wanted = context_parts(opt_json(*post), opt_text(*context), opt_str(permalink));
    assert(texts(parts@) =~= wanted);
    assert(wanted.len() == parts@.len());

    let mut blocks: Vec<Block> = Vec::new();
    blocks.push(Block { kind: BlockKind::Section(Some(text.to_owned())), source: None });
    if parts.len() > 0 {
        blocks.push(Block { kind: BlockKind::Context(join(&parts, "\n")), source: None });
    }
    blocks.push(Block { kind: BlockKind::Actions(elements), source: None });
    proof {
        assert(blocks_view(blocks@) =~= ask_blocks(text@, shown, wanted));
        if json_fits(ask_routing(opt_json(*action), opt_json(*post)), 126) {
            asked_buttons_carry_routing(opt_json(*action), opt_json(*post), texts(choices@), shown);
        }
        ask_reads_back(
            text@,
            shown,
            wanted,
            ask_routing(opt_json(*action), opt_json(*post)),
        );
    }
    Ok(Content { text: None, blocks: Some(blocks) })
}

// --- reading the control channel ---

/// What to read of the control channel.
pub enum DmQuery {
    /// An ask's thread: the root is the draft, the replies are free-text answers.
    Thread(String),
    /// The most recent messages, at most so many.
    Recent(u16),
}

/// How many messages of the control channel are read where no thread is named.
pub const RECENT: u16 = 20;

/// What to read of the control channel: the thread that is named, else recent history.
pub fn dm_query(thread: Option<String>) -> (r: DmQuery)
    ensures
        match thread {
            Some(ts) => r matches DmQuery::Thread(t) && t@ == ts@,
            None => r == DmQuery::Recent(20),
        },
{
    match thread {
        Some(ts) => DmQuery::Thread(ts),
        None => DmQuery::Recent(RECENT),
    }
}

/// Whether the block at position `i` holds buttons.
pub open spec fn buttons_at(blocks: Seq<BlockView>, i: int) -> bool {
    0 <= i < blocks.len() && has_buttons(blocks[i])
}

/// Whether some block holds buttons.
pub open spec fn any_buttons(blocks: Seq<BlockView>) -> bool {
    exists|i: int| buttons_at(blocks, i)
}

/// Whether an ask still has its buttons.
pub open spec fn is_open(blocks: Option<Seq<BlockView>>) -> bool {
    match blocks {
        Some(b) => any_buttons(b),
        None => false,
    }
}

/// What a message says: its section text, else its plain text.
pub open spec fn message_text(c: ContentView) -> Option<Seq<char>> {
    match section_text_of(c.blocks) {
        Some(text) => Some(text),
        None => c.text,
    }
}

/// A message of the control channel as JSON.
pub open spec fn dm_json(m: HistoryMessage) -> JsonView {
    JsonView::Object(
        map![
            "ts"@ => JsonView::Text(m.ts@),
            "user"@ => text_or_null(opt_text(m.user)),
            "bot_id"@ => text_or_null(opt_text(m.bot_id)),
            "text"@ => text_or_null(message_text(m.content@)),
            "open"@ => JsonView::Bool(is_open(m.content@.blocks)),
        ],
    )
}

fn still_open(blocks: &Option<Vec<Block>>) -> (r: bool)
    ensures
        r == is_open(opt_blocks(*blocks)),
{
    if let Some(list) = blocks {
        let mut i: usize = 0;
        while i < list.len()
            invariant
                i <= list@.len(),
                *blocks == Some(*list),
                forall|k: int| 0 <= k < i ==> !#[trigger] buttons_at(blocks_view(list@), k),
            decreases list@.len() - i,
        {
            assert(blocks_view(list@)[i as int] == list@[i as int]@);
            if let BlockKind::Actions(_) = &list[i].kind {
                assert(buttons_at(blocks_view(list@), i as int));
                return true;
            }
            i += 1;
        }
    }
    false
}

/// A message of the control channel as JSON. `text` prefers the section text (an ask's
/// draft, even after its buttons are edited away) over the plain text (a human's
/// reply). `open` is true while the ask still has its buttons.
pub fn dm_msg_json(m: &HistoryMessage) -> (r: Json)
    ensures
        r@ == dm_json(*m),
{
    let text = match section_text(&m.content) {
        Some(t) => Some(t),
        None => opt_copy(&m.content.text),
    };
    let open = still_open(&m.content.blocks);
    Json::object().with("ts", Json::text(m.ts.as_str())).with("user", Json::opt(&m.user)).with(
        "bot_id",
        Json::opt(&m.bot_id),
    ).with("text", Json::opt(&text)).with("open", Json::Bool(open))
}

/// The messages of the control channel as JSON.
pub fn dm_history(messages: &Vec<HistoryMessage>) -> (r: Vec<Json>)
    ensures
        items_view(r@) == messages@.map_values(|m: HistoryMessage| dm_json(m)),
{
    let mut out: Vec<Json> = Vec::new();
    let mut i: usize = 0;
    while i < messages.len()
        invariant
            i <= messages@.len(),
            out@.len() == i,
            forall|k: int| 0 <= k < i ==> (#[trigger] out@[k])@ == dm_json(messages@[k]),
        decreases messages@.len() - i,
    {
        out.push(dm_msg_json(&messages[i]));
        i += 1;
    }
    assert(items_view(out@) =~= messages@.map_values(|m: HistoryMessage| dm_json(m)));
    out
}

// --- answers ---

/// A message to be replaced.
pub struct Edit {
    pub channel: String,
    pub ts: String,
    pub content: Content,
}

/// What a message is replaced by.
pub struct EditView {
    pub channel: Seq<char>,
    pub ts: Seq<char>,
    pub content: ContentView,
}

impl Edit {
    /// What the message is replaced by.
    pub open spec fn view(self) -> EditView {
        EditView { channel: self.channel@, ts: self.ts@, content: self.content@ }
    }
}

/// What an optional edit is.
pub open spec fn opt_edit(o: Option<Edit>) -> Option<EditView> {
    match o {
        Some(e) => Some(e@),
        None => None,
    }
}

/// What came of an answer of the human.
pub struct Answered {
    /// The key of the row that records it.
    pub stored: Result<i64, DbError>,
    /// How to edit the ask.
    pub edit: Option<Edit>,
}

/// Whether a message may be the human's free-text answer to an ask, and if so the
/// channel and the thread of the ask: written by the human, in a thread of the control
/// channel, with text.
pub open spec fn answer_thread(s: SharedView, m: MessageEvent) -> Option<(Seq<char>, Seq<char>)> {
    let text = match m.text {
        Some(t) => t@,
        None => Seq::empty(),
    };
    match (opt_text(m.channel), opt_text(m.thread_ts)) {
        (Some(channel), Some(thread_ts)) => if {
            &&& m.subtype is None
            &&& m.hidden != Some(true)
            &&& m.bot_id is None
            &&& s.is_me(opt_text(m.user))
            &&& s.bot_dm_channel == Some(channel)
            &&& trimmed(text).len() > 0
        } {
            Some((channel, thread_ts))
        } else {
            None
        },
        _ => None,
    }
}

/// The channel and the thread of the ask to which a message may be the free-text answer.
pub fn answer_target(shared: &Shared, m: &MessageEvent) -> (r: Option<(String, String)>)
    ensures
        match r {
            Some((channel, thread_ts)) => answer_thread(shared@, *m) == Some(
                (channel@, thread_ts@),
            ),
            None => answer_thread(shared@, *m) is None,
        },
{
    // Bot echoes carry a bot id; our own asks are no thread replies.
    if m.subtype.is_some() || m.bot_id.is_some() {
        return None;
    }
    if let Some(true) = m.hidden {
        return None;
    }
    let user = match &m.user {
        Some(u) => u,
        None => return None,
    };
    if !opt_same(&shared.my_user_id, user.as_str()) {
        return None;
    }
    let channel = match &m.channel {
        Some(c) => c,
        None => return None,
    };
    if !opt_same(&shared.bot_dm_channel, channel.as_str()) {
        return None;
    }
    let thread_ts = match &m.thread_ts {
        Some(t) => t,
        None => return None,
    };
    let text = match &m.text {
        Some(t) => t.as_str(),
        None => return None,
    };
    if trim(text).is_empty() {
        return None;
    }
    Some((channel.clone(), thread_ts.clone()))
}

/// What is stored of a free-text answer.
pub open spec fn answer_body(routing: JsonView, ask_ts: Seq<char>) -> JsonView {
    JsonView::Object(
        map![
            "decision"@ => JsonView::Text("text"@),
            "action"@ => routing,
            "ask_ts"@ => JsonView::Text(ask_ts),
        ],
    )
}

/// What is stored of a free-text answer is read back, where the routing of the ask is read
/// back from its buttons.
pub proof fn answer_body_is_plain(routing: JsonView, ask_ts: Seq<char>)
    requires
        json_fits(routing, 126),
    ensures
        json_plain(answer_body(routing, ask_ts)),
{
    reveal_strlit("$serde_json::private::RawValue");
    reveal_strlit("decision");
    reveal_strlit("action");
    reveal_strlit("ask_ts");
    reveal_with_fuel(json_fits, 2);
    assert(raw_marker().len() == 30);
}

/// The tables with a free-text answer on record.
pub open spec fn answer_stored(
    db: DbView,
    channel: Seq<char>,
    ask_ts: Seq<char>,
    reply_ts: Seq<char>,
    routing: JsonView,
    now: Seq<char>,
) -> DbView {
    db.inserted(
        "confirmation"@,
        Some(channel),
        None,
        reply_ts,
        json_written(answer_body(routing, ask_ts)),
        "pending"@,
        now,
    )
}

/// Record a free-text answer that points at the ask, and resolve the ask: drop its
/// buttons, keep its prompt, mark it answered. An answer that cannot be recorded leaves
/// the ask as it is.
pub fn record_answer(
    shared: &mut Shared,
    channel: &str,
    ask_ts: &str,
    reply_ts: &str,
    routing: Json,
    blocks: &Option<Vec<Block>>,
    now: &str,
) -> (r: Answered)
    requires
        old(shared).wf(),
    ensures
        final(shared).wf(),
        answer_recorded(
            old(shared)@,
            channel@,
            ask_ts@,
            reply_ts@,
            routing@,
            opt_blocks(*blocks),
            now@,
            r,
            final(shared)@,
        ),
{
    proof {
        if json_fits(routing@, 126) {
            answer_body_is_plain(routing@, ask_ts@);
        }
    }
    let body = to_text(
        &Json::object().with("decision", Json::text("text")).with("action", routing).with(
            "ask_ts",
            Json::text(ask_ts),
        ),
    );
    match shared.db.insert("confirmation", Some(channel), None, reply_ts, body.as_str(), now) {
        Ok(pk) => Answered {
            stored: Ok(pk),
            edit: Some(
                Edit {
                    channel: channel.to_owned(),
                    ts: ask_ts.to_owned(),
                    content: resolved_content(blocks, "✏️ 返信で対応"),
                },
            ),
        },
        Err(e) => Answered { stored: Err(e), edit: None },
    }
}

/// Whether a message is the human's free-text answer to an ask of ours, where `root` is
/// what the root of its thread says: the thread is in the control channel and its root
/// carries a routing.
pub open spec fn is_answer(s: SharedView, m: MessageEvent, root: Option<ContentView>) -> bool {
    &&& answer_thread(s, m) is Some
    &&& root matches Some(c)
    &&& routing_of(c.blocks) is Some
}

/// What an optional message says.
pub open spec fn opt_content(o: Option<Content>) -> Option<ContentView> {
    match o {
        Some(c) => Some(c@),
        None => None,
    }
}

/// What comes of an answer that is recorded: the answer, and the state `after` it. An
/// answer that cannot be recorded leaves the ask as it is.
pub open spec fn answer_recorded(
    s: SharedView,
    channel: Seq<char>,
    ask_ts: Seq<char>,
    reply_ts: Seq<char>,
    routing: JsonView,
    blocks: Option<Seq<BlockView>>,
    now: Seq<char>,
    a: Answered,
    after: SharedView,
) -> bool {
    match a.stored {
        Ok(pk) => {
            &&& s.db.last_pk < i64::MAX
            &&& pk == s.db.last_pk + 1
            &&& after == s.with_db(answer_stored(s.db, channel, ask_ts, reply_ts, routing, now))
            &&& json_fits(routing, 126) ==> denotes(
                after.db.messages.last().body,
                answer_body(routing, ask_ts),
            )
            &&& opt_edit(a.edit) == Some(
                EditView { channel, ts: ask_ts, content: resolved(blocks, "✏️ 返信で対応"@) },
            )
        },
        Err(e) => {
            &&& e == DbError::Full
            &&& s.db.last_pk == i64::MAX
            &&& after == s
            &&& a.edit is None
        },
    }
}

/// What comes of a message that may be a free-text answer: the answer, if it is one, and
/// the state `after` it.
pub open spec fn answer_outcome(
    s: SharedView,
    m: MessageEvent,
    root: Option<ContentView>,
    now: Seq<char>,
    r: Option<Answered>,
    after: SharedView,
) -> bool {
    match r {
        Some(a) => {
            let (channel, ask_ts) = answer_thread(s, m)->0;
            &&& is_answer(s, m, root)
            &&& answer_recorded(
                s,
                channel,
                ask_ts,
                m.ts@,
                routing_of(root->0.blocks)->0,
                root->0.blocks,
                now,
                a,
                after,
            )
        },
        None => !is_answer(s, m, root) && after == s,
    }
}

/// If a message is the human's thread reply to one of our asks in the control channel,
/// record it as a `text` confirmation and resolve the ask. None if it is not; it is then
/// captured like any other. `root` is the message at the root of [`answer_target`], None
/// where it could not be read.
pub fn try_free_text_answer(
    shared: &mut Shared,
    m: &MessageEvent,
    root: &Option<Content>,
    now: &str,
) -> (r: Option<Answered>)
    requires
        old(shared).wf(),
    ensures
        final(shared).wf(),
        answer_outcome(old(shared)@, *m, opt_content(*root), now@, r, final(shared)@),
{
    let (channel, ask_ts) = match answer_target(shared, m) {
        Some(t) => t,
        None => return None,
    };
    let content = match root {
        Some(c) => c,
        None => return None,
    };
    match routing_from_blocks(content) {
        Some(routing) => Some(
            record_answer(
                shared,
                channel.as_str(),
                ask_ts.as_str(),
                m.ts.as_str(),
                routing,
                &content.blocks,
                now,
            ),
        ),
        None => None,
    }
}

// --- clicks ---

/// What a terminal button makes the daemon do.
pub enum Terminal {
    /// Post a text.
    Post { channel: String, thread: Option<String>, text: String },
    /// Nothing: a post that lacks its draft or its channel.
    Incomplete,
    /// Nothing: the ask is just closed.
    Close,
}

/// What a terminal button makes the daemon do.
pub enum TerminalView {
    Post { channel: Seq<char>, thread: Option<Seq<char>>, text: Seq<char> },
    Incomplete,
    Close,
}

impl Terminal {
    /// What the daemon does.
    pub open spec fn view(self) -> TerminalView {
        match self {
            Terminal::Post { channel, thread, text } => TerminalView::Post {
                channel: channel@,
                thread: opt_text(thread),
                text: text@,
            },
            Terminal::Incomplete => TerminalView::Incomplete,
            Terminal::Close => TerminalView::Close,
        }
    }
}

/// What a terminal routing makes the daemon do with an ask's draft: `post` posts it, and
/// anything else closes the ask.
pub open spec fn terminal_of(exec: JsonView, draft: Option<Seq<char>>) -> TerminalView {
    if exec.text_at("type"@) == Some("post"@) {
        match (draft, exec.text_at("channel"@)) {
            (Some(text), Some(channel)) => TerminalView::Post {
                channel,
                thread: exec.text_at("thread"@),
                text,
            },
            _ => TerminalView::Incomplete,
        }
    } else {
        TerminalView::Close
    }
}

/// What a terminal routing makes the daemon do with an ask's draft.
pub fn terminal_step(exec: &Json, draft: Option<String>) -> (r: Terminal)
    ensures
        r@ == terminal_of(exec@, opt_text(draft)),
{
    let posts = match exec.text_at("type") {
        Some(t) => same(t, "post"),
        None => false,
    };
    if !posts {
        return Terminal::Close;
    }
    match (draft, owned_text_at(exec, "channel")) {
        (Some(text), Some(channel)) => Terminal::Post {
            channel,
            thread: owned_text_at(exec, "thread"),
            text,
        },
        _ => Terminal::Incomplete,
    }
}

/// What came of a post: its timestamp, or the message of the error.
pub open spec fn posted_view(r: Result<String, String>) -> Result<Seq<char>, Seq<char>> {
    match r {
        Ok(ts) => Ok(ts@),
        Err(e) => Err(e@),
    }
}

/// The outcome line of a terminal button. `posted` is what came of the post, where there
/// was one.
pub open spec fn terminal_label(step: TerminalView, posted: Result<Seq<char>, Seq<char>>) -> Seq<
    char,
> {
    match step {
        TerminalView::Post { .. } => if posted is Ok {
            "✅ 投稿済み"@
        } else {
            "⚠️ 投稿失敗"@
        },
        TerminalView::Incomplete => "⚠️ 投稿失敗"@,
        TerminalView::Close => "🚫 無視"@,
    }
}

/// What is recorded of a terminal button's outcome.
pub open spec fn terminal_result(
    step: TerminalView,
    posted: Result<Seq<char>, Seq<char>>,
) -> JsonView {
    match step {
        TerminalView::Post { .. } => match posted {
            Ok(ts) => JsonView::Object(map!["posted_ts"@ => JsonView::Text(ts)]),
            Err(e) => JsonView::Object(map!["error"@ => JsonView::Text(e)]),
        },
        TerminalView::Incomplete => JsonView::Object(
            map!["error"@ => JsonView::Text("missing draft or channel"@)],
        ),
        TerminalView::Close => JsonView::Object(map!["ignored"@ => JsonView::Bool(true)]),
    }
}

/// The outcome line of a terminal button and what is recorded of it, once the daemon has
/// done its part. `posted` is what came of the post; it counts for nothing where there
/// was none.
pub fn run_terminal(step: &Terminal, posted: &Result<String, String>) -> (r: (String, Json))
    ensures
        r.0@ == terminal_label(step@, posted_view(*posted)),
        r.1@ == terminal_result(step@, posted_view(*posted)),
{
    match step {
        Terminal::Post { .. } => match posted {
            Ok(ts) => (
                "✅ 投稿済み".to_owned(),
                Json::object().with("posted_ts", Json::text(ts.as_str())),
            ),
            Err(e) => (
                "⚠️ 投稿失敗".to_owned(),
                Json::object().with("error", Json::text(e.as_str())),
            ),
        },
        Terminal::Incomplete => (
            "⚠️ 投稿失敗".to_owned(),
            Json::object().with("error", Json::text("missing draft or channel")),
        ),
        Terminal::Close => (
            "🚫 無視".to_owned(),
            Json::object().with("ignored", Json::Bool(true)),
        ),
    }
}

/// The value of the button that was clicked, empty where there is none.
pub open spec fn click_value(ev: BlockActions) -> Seq<char> {
    match ev.clicked {
        Some(c) => match c.value {
            Some(v) => v@,
            None => Seq::empty(),
        },
        None => Seq::empty(),
    }
}

/// What the human decided: what the value says, else the id of the button.
pub open spec fn decision_of(ev: BlockActions, value: JsonView) -> Seq<char> {
    match (value.text_at("decision"@), ev.clicked) {
        (Some(d), _) => d,
        (None, Some(c)) => c.action_id@,
        (None, None) => Seq::empty(),
    }
}

/// The draft of the ask that was clicked.
pub open spec fn draft_of(ev: BlockActions) -> Option<Seq<char>> {
    match ev.message {
        Some(m) => section_text_of(m@.blocks),
        None => None,
    }
}

/// The action of a routed button: what rides under `action`, else the raw value.
pub open spec fn routed_action(ev: BlockActions, value: JsonView) -> JsonView {
    match value.get("action"@) {
        Some(action) => action,
        None => JsonView::Text(click_value(ev)),
    }
}

/// What a click comes to: the status of its row, the outcome line, and what is recorded.
/// `value` is what the button value denotes, and `posted` what came of the post.
pub struct ClickView {
    pub status: Seq<char>,
    pub label: Seq<char>,
    pub body: JsonView,
}

/// What a click comes to: a terminal button is done, a routed one is pending.
pub open spec fn click_outcome(
    ev: BlockActions,
    value: JsonView,
    posted: Result<Seq<char>, Seq<char>>,
) -> ClickView {
    let decision = decision_of(ev, value);
    let ask_ts = text_or_null(opt_text(ev.message_ts));
    match value.get("exec"@) {
        Some(exec) => {
            let step = terminal_of(exec, draft_of(ev));
            ClickView {
                status: "done"@,
                label: terminal_label(step, posted),
                body: JsonView::Object(
                    map![
                        "decision"@ => JsonView::Text(decision),
                        "exec"@ => exec,
                        "ask_ts"@ => ask_ts,
                        "result"@ => terminal_result(step, posted),
                    ],
                ),
            }
        },
        None => ClickView {
            status: "pending"@,
            label: if decision == "approve"@ {
                "✅ 承認済み"@
            } else {
                "✅ "@ + decision
            },
            body: JsonView::Object(
                map![
                    "decision"@ => JsonView::Text(decision),
                    "action"@ => routed_action(ev, value),
                    "ask_ts"@ => ask_ts,
                ],
            ),
        },
    }
}

/// Whether the routing in what a button value denotes is read back from a button, if it has
/// one.
pub open spec fn routing_fits(value: JsonView) -> bool {
    routing_in(value) matches Some(routing) ==> json_fits(routing, 126)
}

/// What is stored of a click is read back, where the routing of the button is.
pub proof fn click_body_is_plain(
    ev: BlockActions,
    value: JsonView,
    posted: Result<Seq<char>, Seq<char>>,
)
    requires
        routing_fits(value),
    ensures
        json_plain(click_outcome(ev, value, posted).body),
{
    reveal_strlit("$serde_json::private::RawValue");
    reveal_strlit("decision");
    reveal_strlit("action");
    reveal_strlit("exec");
    reveal_strlit("ask_ts");
    reveal_strlit("result");
    reveal_strlit("posted_ts");
    reveal_strlit("error");
    reveal_strlit("ignored");
    reveal_with_fuel(json_fits, 3);
    assert(raw_marker().len() == 30);
}

/// What a click comes to.
pub struct ClickOutcome {
    pub status: String,
    pub label: String,
    pub body: Json,
}

impl ClickOutcome {
    /// What the click comes to.
    pub open spec fn view(self) -> ClickView {
        ClickView { status: self.status@, label: self.label@, body: self.body@ }
    }
}

fn value_text(ev: &BlockActions) -> (r: String)
    ensures
        r@ == click_value(*ev),
{
    match &ev.clicked {
        Some(c) => match &c.value {
            Some(v) => v.clone(),
            None => String::new(),
        },
        None => String::new(),
    }
}

fn draft_text(ev: &BlockActions) -> (r: Option<String>)
    ensures
        opt_text(r) == draft_of(*ev),
{
    match &ev.message {
        Some(m) => section_text(m),
        None => None,
    }
}

/// What the daemon has to do for a click before it is recorded, where the button value
/// denotes `value`: None for a routed button.
pub fn step_for(ev: &BlockActions, value: &Json) -> (r: Option<Terminal>)
    ensures
        match value@.get("exec"@) {
            Some(exec) => r matches Some(step) && step@ == terminal_of(exec, draft_of(*ev)),
            None => r is None,
        },
{
    match value.get("exec") {
        Some(exec) => Some(terminal_step(exec, draft_text(ev))),
        None => None,
    }
}

/// What the daemon has to do for a click before it is recorded: None for a routed button.
pub fn click_step(ev: &BlockActions) -> (r: Option<Terminal>)
    ensures
        match read_or_null(click_value(*ev)).get("exec"@) {
            Some(exec) => r matches Some(step) && step@ == terminal_of(exec, draft_of(*ev)),
            None => r is None,
        },
{
    step_for(ev, &parse_or_null(value_text(ev).as_str()))
}

/// What a click comes to, where the button value denotes `value` and `posted` is what came
/// of the post that [`step_for`] asked for; it counts for nothing where it asked for none.
pub fn resolve_click(ev: &BlockActions, value: &Json, posted: &Result<String, String>) -> (r:
    ClickOutcome)
    ensures
        r@ == click_outcome(*ev, value@, posted_view(*posted)),
{
    let decision = match value.text_at("decision") {
        Some(d) => d.to_owned(),
        None => match &ev.clicked {
            Some(c) => c.action_id.clone(),
            None => String::new(),
        },
    };
    match value.get("exec") {
        Some(exec) => {
            let step = terminal_step(exec, draft_text(ev));
            let (label, result) = run_terminal(&step, posted);
            ClickOutcome {
                status: "done".to_owned(),
                label,
                body: Json::object().with("decision", Json::text(decision.as_str())).with(
                    "exec",
                    exec.copy(),
                ).with("ask_ts", Json::opt(&ev.message_ts)).with("result", result),
            }
        },
        None => {
            // The buttons that hold the opaque action are about to be edited away.
            let action = match value.get("action") {
                Some(a) => a.copy(),
                None => Json::Text(value_text(ev)),
            };
            let label = if same(decision.as_str(), "approve") {
                "✅ 承認済み".to_owned()
            } else {
                "✅ ".to_owned().concat(decision.as_str())
            };
            ClickOutcome {
                status: "pending".to_owned(),
                label,
                body: Json::object().with("decision", Json::text(decision.as_str())).with(
                    "action",
                    action,
                ).with("ask_ts", Json::opt(&ev.message_ts)),
            }
        },
    }
}

/// The tables with a click on record.
pub open spec fn click_stored(
    db: DbView,
    ev: BlockActions,
    outcome: ClickView,
    now: Seq<char>,
) -> DbView {
    db.inserted(
        "confirmation"@,
        opt_text(ev.channel),
        None,
        match ev.message_ts {
            Some(t) => t@,
            None => now,
        },
        json_written(outcome.body),
        outcome.status,
        now,
    )
}

/// How the ask that was clicked is edited, if it is known: its buttons give way to the
/// outcome line.
pub open spec fn click_edit(ev: BlockActions, label: Seq<char>) -> Option<EditView> {
    match (opt_text(ev.channel), opt_text(ev.message_ts)) {
        (Some(channel), Some(ts)) => Some(
            EditView {
                channel,
                ts,
                content: resolved(
                    match ev.message {
                        Some(m) => m@.blocks,
                        None => None,
                    },
                    label,
                ),
            },
        ),
        _ => None,
    }
}

/// What comes of a click: the answer, and the state `after` it. The ask is edited even
/// where the click could not be recorded.
pub open spec fn click_handled(
    s: SharedView,
    ev: BlockActions,
    outcome: ClickView,
    now: Seq<char>,
    a: Answered,
    after: SharedView,
) -> bool {
    &&& opt_edit(a.edit) == click_edit(ev, outcome.label)
    &&& match a.stored {
        Ok(pk) => {
            &&& s.db.last_pk < i64::MAX
            &&& pk == s.db.last_pk + 1
            &&& after == s.with_db(click_stored(s.db, ev, outcome, now))
            &&& json_plain(outcome.body) ==> denotes(after.db.messages.last().body, outcome.body)
        },
        Err(e) => e == DbError::Full && s.db.last_pk == i64::MAX && after == s,
    }
}

/// Record what a click comes to, and edit the ask: drop its buttons, show the outcome.
pub fn record_click(shared: &mut Shared, ev: &BlockActions, outcome: &ClickOutcome, now: &str) -> (r:
    Answered)
    requires
        old(shared).wf(),
    ensures
        final(shared).wf(),
        click_handled(old(shared)@, *ev, outcome@, now@, r, final(shared)@),
{
    let body = to_text(&outcome.body);
    let ts = match &ev.message_ts {
        Some(t) => t.as_str(),
        None => now,
    };
    let stored = shared.db.insert_with_status(
        "confirmation",
        opt_ref(&ev.channel),
        None,
        ts,
        body.as_str(),
        outcome.status.as_str(),
        now,
    );
    let edit = match (&ev.channel, &ev.message_ts) {
        (Some(channel), Some(ts)) => {
            let content = match &ev.message {
                Some(m) => resolved_content(&m.blocks, outcome.label.as_str()),
                None => resolved_content(&None, outcome.label.as_str()),
            };
            Some(Edit { channel: channel.clone(), ts: ts.clone(), content })
        },
        _ => None,
    };
    Answered { stored, edit }
}

/// Handle an interaction of the human: record a click and edit the ask. None for an
/// interaction of another kind. `posted` is what came of the post that [`click_step`]
/// asked for; it counts for nothing where it asked for none.
pub fn handle_interaction(
    shared: &mut Shared,
    event: &Interaction,
    posted: &Result<String, String>,
    now: &str,
) -> (r: Option<Answered>)
    requires
        old(shared).wf(),
    ensures
        final(shared).wf(),
        match *event {
            Interaction::BlockActions(ev) => {
                let value = read_or_null(click_value(ev));
                let outcome = click_outcome(ev, value, posted_view(*posted));
                &&& r matches Some(a)
                &&& click_handled(old(shared)@, ev, outcome, now@, a, final(shared)@)
                &&& routing_fits(value) && a.stored is Ok ==> denotes(
                    final(shared)@.db.messages.last().body,
                    outcome.body,
                )
            },
            Interaction::Other => r is None && final(shared)@ == old(shared)@,
        },
{
    match event {
        Interaction::BlockActions(ev) => {
            let value = parse_or_null(value_text(ev).as_str());
            let outcome = resolve_click(ev, &value, posted);
            proof {
                if routing_fits(value@) {
                    click_body_is_plain(*ev, value@, posted_view(*posted));
                }
            }
            Some(record_click(shared, ev, &outcome, now))
        },
        Interaction::Other => None,
    }
}

} // verus!
