use qbot_with_typ::bot::{
    char_prefix, command_head, help_message_filename, help_message_path, image_fallback,
    load_help_message, process_command, render_outcome, BotAction, BotEvent, CommandOutcome,
    CommandStep, Conversation,
};
use qbot_with_typ::worker::WorkerError;

#[test]
fn command_head_ignores_trailing_args_and_extra_whitespace() {
    assert_eq!(command_head("/tex"), "/tex");
    assert_eq!(command_head("/tex 1+1"), "/tex");
    assert_eq!(command_head("/tex\t  1+1"), "/tex");
    assert_eq!(command_head("/about   "), "/about");
    assert_eq!(command_head("/typm foo bar"), "/typm");
    assert_eq!(command_head("hello"), "hello");
}

#[test]
fn help_message_filename_maps_known_topics() {
    assert_eq!(help_message_filename(None), Some("help.txt"));
    assert_eq!(help_message_filename(Some("tag")), Some("help_tag.txt"));
    assert_eq!(help_message_filename(Some("dep")), Some("help_dep.txt"));
    assert_eq!(help_message_filename(Some("example")), Some("help_example.txt"));
}

#[test]
fn help_message_filename_rejects_unknown_topic() {
    assert_eq!(help_message_filename(Some("foo")), None);
}

#[test]
fn char_prefix_counts_characters() {
    assert_eq!(char_prefix("渲染失败", 2), "渲染");
    assert_eq!(char_prefix("abc", 80), "abc");
    assert_eq!(char_prefix("abc", 0), "");
}

#[test]
fn help_paths_lie_in_the_resources() {
    assert_eq!(help_message_path(None), Some("resources/help-messages/help.txt".to_string()));
    assert_eq!(
        help_message_path(Some("dep")),
        Some("resources/help-messages/help_dep.txt".to_string())
    );
    assert_eq!(help_message_path(Some("deps")), None);
}

#[test]
fn help_text_is_trimmed_or_excused() {
    assert_eq!(load_help_message(None, Some("\n hi \n")), "hi");
    assert_eq!(load_help_message(None, Some(" \n")), "帮助文案暂不可用。");
    assert_eq!(load_help_message(Some("tag"), None), "帮助文案暂不可用。");
    assert_eq!(load_help_message(Some("example"), Some("")), "例文暂未提供。");
    assert_eq!(load_help_message(Some("example"), None), "帮助文案暂不可用。");
    assert_eq!(
        load_help_message(Some("foo"), Some("x")),
        "未知帮助主题，可用：tag、dep、example"
    );
}

fn step_text(message: &str) -> String {
    match process_command(message) {
        CommandStep::Ignore => "ignore".to_string(),
        CommandStep::Reply(s) => format!("reply {s}"),
        CommandStep::Help(None) => "help".to_string(),
        CommandStep::Help(Some(topic)) => format!("help {topic}"),
        CommandStep::Render(source) => format!("render {source}"),
    }
}

#[test]
fn commands_are_told_apart() {
    assert_eq!(step_text("/help"), "help");
    assert_eq!(step_text("/help  tag "), "help tag");
    assert_eq!(step_text("/help\ttag"), "ignore");
    assert_eq!(step_text("/helper"), "ignore");
    assert_eq!(step_text("/typd $x$"), "render $x$");
    assert_eq!(step_text("/typdx"), "render x");
    assert_eq!(step_text("/typd/typd x"), "render x");
    assert_eq!(step_text("/typd /typd x"), "render /typd x");
    assert_eq!(step_text("/typd"), "reply 请提供 Typst 代码，例如：/typd $E = mc^2$");
    assert_eq!(step_text("/typd lxgw,\nHi"), "render #show: tag.with(\"lxgw\")\nHi");
    assert_eq!(step_text("/about"), "reply Typst 渲染！");
    assert_eq!(
        step_text("/tex 1+1"),
        "reply 目前停止提供TeX渲染，请通过 /typd 指令使用Typst渲染。"
    );
    assert_eq!(step_text("/typm"), "reply 未注册指令。");
    assert_eq!(step_text("hello"), "ignore");
    assert_eq!(step_text(""), "ignore");
}

#[test]
fn render_errors_become_text() {
    match render_outcome(Err(WorkerError::Compile("[1:2] boom".to_string()))) {
        CommandOutcome::Text(s) => assert_eq!(s, "渲染失败：compilation failed: [1:2] boom"),
        CommandOutcome::Png(_) => panic!("no image was rendered"),
    }
    assert_eq!(image_fallback("HTTP 500"), "图片已生成但发送失败：HTTP 500");
}

fn received(content: &str) -> (Conversation, BotAction) {
    Conversation::Start.step(BotEvent::Received(Some(content.to_string())))
}

#[test]
fn silence_is_kept_on_talk_and_on_empty_messages() {
    assert!(matches!(received(" hello "), (Conversation::Finished, BotAction::Stop)));
    assert!(matches!(
        Conversation::Start.step(BotEvent::Received(None)),
        (Conversation::Finished, BotAction::Stop)
    ));
}

#[test]
fn help_is_read_and_sent() {
    let (state, action) = received("  /help tag\n");
    match action {
        BotAction::ReadHelp(path) => assert_eq!(path, "resources/help-messages/help_tag.txt"),
        other => panic!("{other:?}"),
    }
    let (state, action) = state.step(BotEvent::HelpRead(Some("text\n".to_string())));
    match action {
        BotAction::SendText(s) => assert_eq!(s, "text"),
        other => panic!("{other:?}"),
    }
    let failed = BotEvent::Sent(Some("offline".to_string()));
    assert!(matches!(state.step(failed), (Conversation::Finished, BotAction::Stop)));
}

#[test]
fn unknown_help_topic_is_answered_at_once() {
    match received("/help foo") {
        (Conversation::SendingText, BotAction::SendText(s)) => {
            assert_eq!(s, "未知帮助主题，可用：tag、dep、example");
        }
        other => panic!("{other:?}"),
    }
}

#[test]
fn image_is_sent_and_replaced_by_one_text_where_that_fails() {
    let (state, action) = received("/typd $x$");
    match action {
        BotAction::Render(source, template) => {
            assert_eq!(source, "$x$");
            assert_eq!(template, "quiconf");
        }
        other => panic!("{other:?}"),
    }
    let (state, action) = state.step(BotEvent::Rendered(Ok(vec![1, 2, 3])));
    match action {
        BotAction::SendImage(image) => assert_eq!(image, vec![1, 2, 3]),
        other => panic!("{other:?}"),
    }
    let (state, action) = state.step(BotEvent::Sent(Some("too big".to_string())));
    match action {
        BotAction::SendText(s) => assert_eq!(s, "图片已生成但发送失败：too big"),
        other => panic!("{other:?}"),
    }
    let failed = BotEvent::Sent(Some("again".to_string()));
    assert!(matches!(state.step(failed), (Conversation::Finished, BotAction::Stop)));
}

#[test]
fn sent_image_ends_the_conversation() {
    let (state, _) = received("/typd $x$");
    let (state, _) = state.step(BotEvent::Rendered(Ok(vec![9])));
    assert!(matches!(
        state.step(BotEvent::Sent(None)),
        (Conversation::Finished, BotAction::Stop)
    ));
}
