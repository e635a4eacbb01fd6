use guild_triggers::auth::{get_guild_prefix, is_guild_admin, parse_id, Denial, StoreError};
use guild_triggers::commands::{
    add, admin, error_channel, event_add, event_argument, event_remove, event_show,
    interpretation_error_reply, parse_mention_or_id, prefix, remove, show, update_reply,
    ScriptError,
};
use guild_triggers::events::EventKind;
use guild_triggers::render::{resolve_channel, send_result, RenderStep, ScriptOutput, Warning};

fn s(x: &str) -> String {
    x.to_string()
}

fn output(message: &str, has_embed: bool, reactions: usize, delete: Option<u64>, warnings: Option<Vec<Warning>>) -> ScriptOutput {
    ScriptOutput {
        message: s(message),
        target: None,
        has_embed,
        reaction_count: reactions,
        delete_after_ms: delete,
        warnings,
    }
}

fn texts(steps: &[RenderStep]) -> Vec<String> {
    steps
        .iter()
        .filter_map(|st| match st {
            RenderStep::SendText(t) => Some(t.clone()),
            _ => None,
        })
        .collect()
}

fn posts(steps: &[RenderStep]) -> usize {
    steps.iter().filter(|st| matches!(st, RenderStep::SendText(_) | RenderStep::SendEmbed)).count()
}

#[test]
fn admin_always_allowed() {
    let roles: Vec<u64> = vec![];
    assert_eq!(is_guild_admin(true, false, Ok(Some(s("77"))), &roles), Ok(()));
    assert_eq!(is_guild_admin(true, false, Err(StoreError { detail: s("x") }), &roles), Ok(()));
}

#[test]
fn configured_role_decides() {
    assert_eq!(is_guild_admin(false, true, Ok(Some(s("77"))), &vec![1, 2]), Err(Denial::MissingRole));
    assert_eq!(is_guild_admin(false, false, Ok(Some(s("77"))), &vec![1, 77]), Ok(()));
}

#[test]
fn manage_guild_decides_without_role() {
    assert_eq!(is_guild_admin(false, true, Ok(None), &vec![]), Ok(()));
    assert_eq!(is_guild_admin(false, false, Ok(None), &vec![5]), Err(Denial::MissingManageGuild));
}

#[test]
fn storage_failure_denies() {
    let r = is_guild_admin(false, true, Err(StoreError { detail: s("gone") }), &vec![]);
    assert_eq!(r, Err(Denial::DatabaseError));
    assert_eq!(is_guild_admin(false, true, Ok(Some(s("abc"))), &vec![]), Err(Denial::DatabaseError));
    assert_eq!(Denial::MissingRole.user_message(), "You do not have the required role");
    assert_eq!(Denial::MissingManageGuild.user_message(), "You do not have the Manage Guild permission");
    assert_eq!(Denial::DatabaseError.user_message(), "Database error");
}

#[test]
fn ids_parse() {
    assert_eq!(parse_id("123"), Some(123));
    assert_eq!(parse_id("18446744073709551615"), Some(u64::MAX));
    assert_eq!(parse_id("18446744073709551616"), None);
    assert_eq!(parse_id(""), None);
    assert_eq!(parse_id("12a"), None);
    assert_eq!(parse_id("+1"), None);
}

#[test]
fn prefix_defaults() {
    assert_eq!(get_guild_prefix(Ok(None)), ".");
    assert_eq!(get_guild_prefix(Ok(Some(s("!")))), "!");
    assert_eq!(get_guild_prefix(Err(StoreError { detail: s("x") })), "");
}

#[test]
fn warnings_only_make_one_post() {
    let steps = send_result(&output("", false, 2, None, Some(vec![Warning::UnclosedKeys])));
    assert_eq!(posts(&steps), 1);
    assert_eq!(texts(&steps), vec![s("There were unclosed keys in the response\n")]);
    assert!(matches!(steps[1], RenderStep::React(0)));
    assert!(matches!(steps[2], RenderStep::React(1)));
    assert_eq!(steps.len(), 3);
}

#[test]
fn nothing_to_render() {
    assert!(send_result(&output("", false, 3, Some(1000), None)).is_empty());
    assert!(send_result(&output("", false, 1, None, Some(vec![]))).is_empty());
}

#[test]
fn full_render_order() {
    let steps = send_result(&output("hi", true, 1, Some(500), Some(vec![Warning::UnclosedKeys, Warning::UnclosedKeys])));
    assert_eq!(steps.len(), 4);
    match &steps[0] {
        RenderStep::SendText(t) => assert_eq!(
            t,
            "There were unclosed keys in the response\nThere were unclosed keys in the response\nhi"
        ),
        _ => panic!("text first"),
    }
    assert!(matches!(steps[1], RenderStep::SendEmbed));
    assert!(matches!(steps[2], RenderStep::React(0)));
    assert!(matches!(steps[3], RenderStep::DeleteLast(500)));
}

#[test]
fn embed_only_gets_reactions() {
    let steps = send_result(&output("", true, 1, None, None));
    assert_eq!(steps.len(), 2);
    assert!(matches!(steps[0], RenderStep::SendEmbed));
    assert!(matches!(steps[1], RenderStep::React(0)));
}

#[test]
fn channel_resolution() {
    assert_eq!(resolve_channel(Some(1), Some(2)), Some(1));
    assert_eq!(resolve_channel(None, Some(2)), Some(2));
    assert_eq!(resolve_channel(None, None), None);
}

#[test]
fn add_replies() {
    let r = add(&s("hi"), &s(""), &Ok(None));
    assert!(!r.store);
    assert_eq!(r.reply, Some(s("The trigger does not have a response")));
    let r = add(&s("?("), &s("x"), &Ok(None));
    assert!(!r.store);
    assert_eq!(r.reply, Some(s("The trigger pattern is not a valid regular expression")));
    let r = add(&s("hi"), &s("x"), &Ok(None));
    assert!(r.store);
    assert_eq!(r.reply, Some(s("Trigger added")));
    let r = add(&s("hi"), &s("x"), &Ok(Some(vec![Warning::UnclosedKeys])));
    assert!(r.store);
    assert_eq!(r.reply, Some(s("Trigger added, but it has the following errors:\n There are unclosed keys")));
}

#[test]
fn add_refused_by_validation() {
    let r = add(&s("hi"), &s("x"), &Err(ScriptError::WrongAmountOfParameters));
    assert!(!r.store);
    assert_eq!(r.reply, Some(s("One of your keys has invalid amount of parameters")));
    let r = add(&s("hi"), &s("x"), &Err(ScriptError::EmptyParameter));
    assert_eq!(r.reply, Some(s("One of your keys has an empty parameter")));
    let r = add(&s("hi"), &s("x"), &Err(ScriptError::NonexistentKey));
    assert_eq!(r.reply, Some(s("One of your keys does not exist")));
    let r = add(&s("hi"), &s("x"), &Err(ScriptError::InterpretationError(s("boom"))));
    assert!(!r.store);
    assert_eq!(r.reply, None);
}

#[test]
fn event_add_replies() {
    assert_eq!(event_add(None, &s("x"), &Ok(None)), (None, Some(s("You need to provide a correct event type"))));
    assert_eq!(event_add(Some("nope"), &s("x"), &Ok(None)), (None, Some(s("You need to provide a correct event type"))));
    assert_eq!(
        event_add(Some("memberjoin"), &s(""), &Ok(None)),
        (None, Some(s("You need to provide a response to the event")))
    );
    assert_eq!(event_add(Some("memberjoin"), &s("x"), &Ok(None)), (Some(EventKind::MemberJoin), Some(s("Event added"))));
    assert_eq!(
        event_add(Some("RoleUpdate"), &s("x"), &Ok(Some(vec![Warning::UnclosedKeys]))),
        (Some(EventKind::RoleUpdate), Some(s("Event added, but it has the following errors:\n There are unclosed keys")))
    );
    assert_eq!(
        event_add(Some("RoleUpdate"), &s("x"), &Err(ScriptError::NonexistentKey)),
        (None, Some(s("One of your keys does not exist")))
    );
    assert_eq!(event_argument(Some("channeldelete")), Ok(EventKind::ChannelDelete));
}

#[test]
fn remove_and_show_replies() {
    assert_eq!(remove(0), "Trigger not found");
    assert_eq!(remove(1), "Trigger deleted");
    assert_eq!(event_remove(0), "Event not found");
    assert_eq!(event_remove(2), "Event deleted");
    assert_eq!(show(&s("&x"), &Ok(Some(s("c")))), Some(s("Trigger type: Literal```\nc\n```")));
    assert_eq!(show(&s("?x"), &Ok(Some(s("c")))), Some(s("Trigger type: Regex\n```\nc\n```")));
    assert_eq!(show(&s("x"), &Ok(Some(s("c")))), Some(s("Trigger type: Starting literal\n```\nc\n```")));
    assert_eq!(show(&s("x"), &Ok(None)), Some(s("Trigger not found")));
    assert_eq!(show(&s("x"), &Err(StoreError { detail: s("e") })), None);
    assert_eq!(event_show(&Ok(Some(s("c")))), Some(s("```\nc\n```")));
    assert_eq!(event_show(&Ok(None)), Some(s("Event not found")));
    assert_eq!(event_show(&Err(StoreError { detail: s("e") })), None);
}

#[test]
fn prefix_replies() {
    assert_eq!(prefix(&Some(s("!")), true, &s(".")), "Your prefix has been updated to `!`");
    assert_eq!(prefix(&Some(s("!")), false, &s(".")), "Could not update the prefix");
    assert_eq!(prefix(&None, false, &s(".")), "Your current prefix is: `.`");
    assert_eq!(update_reply("admin role", true), "Your admin role has been updated");
    assert_eq!(update_reply("error channel", false), "The update has failed");
}

#[test]
fn role_and_channel_arguments() {
    assert_eq!(admin(&vec![5, 6], "9", None), Some(5));
    assert_eq!(admin(&vec![], "<@&42>", None), Some(42));
    assert_eq!(admin(&vec![], "42", None), Some(42));
    assert_eq!(admin(&vec![], "+42", None), Some(42));
    assert_eq!(admin(&vec![], "Moderators", Some(7)), Some(7));
    assert_eq!(admin(&vec![], "<@&x>", None), None);
    assert_eq!(error_channel(&vec![], "<#9>", None), Some(9));
    assert_eq!(error_channel(&vec![3], "<#9>", None), Some(3));
    assert_eq!(error_channel(&vec![], "general", Some(8)), Some(8));
    assert_eq!(parse_mention_or_id("<#>", "<#"), None);
}

#[test]
fn interpretation_errors_are_reported() {
    assert_eq!(
        interpretation_error_reply(&ScriptError::InterpretationError(s("bad key"))),
        Some(s("An error happened during interpretation: `bad key`"))
    );
    assert_eq!(interpretation_error_reply(&ScriptError::EmptyParameter), None);
}
