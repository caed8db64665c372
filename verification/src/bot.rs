//! The commands of the bot, and how a message is answered.

use vstd::prelude::*;
use crate::tag_shorthand;
use crate::text;
use crate::worker::WorkerError;

verus! {

/// The beginning of `s`, at most `max_chars` characters, for a preview in the log.
pub fn char_prefix(s: &str, max_chars: usize) -> (r: String)
    ensures
        r@ == s@.take(
            if max_chars < s@.len() {
                max_chars as int
            } else {
                s@.len() as int
            },
        ),
{
    let n: usize = s.unicode_len();
    let m: usize = if max_chars < n {
        max_chars
    } else {
        n
    };
    s.substring_char(0, m).to_owned()
}

/// The characters of an optional text.
pub open spec fn opt_view(s: Option<&str>) -> Option<Seq<char>> {
    match s {
        Some(t) => Some(t@),
        None => None,
    }
}

/// The file that holds the help on a topic, where the topic is known.
pub open spec fn help_file(topic: Option<Seq<char>>) -> Option<Seq<char>> {
    match topic {
        None => Some("help.txt"@),
        Some(t) => if t == "tag"@ {
            Some("help_tag.txt"@)
        } else if t == "dep"@ {
            Some("help_dep.txt"@)
        } else if t == "example"@ {
            Some("help_example.txt"@)
        } else {
            None
        },
    }
}

/// The file under `resources/help-messages` that holds the help on a topic.
pub fn help_message_filename(topic: Option<&str>) -> (r: Option<&'static str>)
    ensures
        opt_view(r) == help_file(opt_view(topic)),
{
    match topic {
        None => Some("help.txt"),
        Some(t) => {
            if text::same_text(t, "tag") {
                Some("help_tag.txt")
            } else if text::same_text(t, "dep") {
                Some("help_dep.txt")
            } else if text::same_text(t, "example") {
                Some("help_example.txt")
            } else {
                None
            }
        },
    }
}

/// The path of the file that holds the help on a topic.
pub fn help_message_path(topic: Option<&str>) -> (r: Option<String>)
    ensures
        match help_file(opt_view(topic)) {
            None => r is None,
            Some(file) => r matches Some(path) && path@ == "resources/help-messages/"@ + file,
        },
{
    match help_message_filename(topic) {
        None => None,
        Some(file) => Some("resources/help-messages/".to_owned().concat(file)),
    }
}

/// The help on a topic, given what its file holds (`None` where it could not be read): the text,
/// trimmed, or a line that says why there is none.
pub open spec fn help_text(topic: Option<Seq<char>>, contents: Option<Seq<char>>) -> Seq<char> {
    if help_file(topic) is None {
        "未知帮助主题，可用：tag、dep、example"@
    } else if contents is Some && text::trimmed(contents->0).len() > 0 {
        text::trimmed(contents->0)
    } else if contents is Some && topic == Some("example"@) {
        "例文暂未提供。"@
    } else {
        "帮助文案暂不可用。"@
    }
}

/// The help on a topic, given what its file holds.
pub fn load_help_message(topic: Option<&str>, contents: Option<&str>) -> (r: String)
    ensures
        r@ == help_text(opt_view(topic), opt_view(contents)),
{
    if help_message_filename(topic).is_none() {
        return "未知帮助主题，可用：tag、dep、example".to_owned();
    }
    let unavailable = "帮助文案暂不可用。";
    match contents {
        None => unavailable.to_owned(),
        Some(contents) => {
            let body = text::trim(contents);
            if !body.is_empty() {
                return body.to_owned();
            }
            let is_example = match topic {
                Some(t) => text::same_text(t, "example"),
                None => false,
            };
            if is_example {
                "例文暂未提供。".to_owned()
            } else {
                unavailable.to_owned()
            }
        },
    }
}

/// The first word of a message, by which commands with arguments are told.
pub fn command_head(text: &str) -> (r: &str)
    ensures
        r@ == text::first_word(text@),
{
    text::head_word(text)
}

/// The view of [`CommandStep`].
pub enum CommandPlan {
    Ignore,
    Reply(Seq<char>),
    Help(Option<Seq<char>>),
    Render(Seq<char>),
}

/// What a message asks for.
#[derive(Debug)]
pub enum CommandStep {
    /// No command: no answer.
    Ignore,
    /// An answer that needs no work.
    Reply(String),
    /// The help on a topic.
    Help(Option<String>),
    /// The image of a source.
    Render(String),
}

impl View for CommandStep {
    type V = CommandPlan;

    open spec fn view(&self) -> CommandPlan {
        match *self {
            CommandStep::Ignore => CommandPlan::Ignore,
            CommandStep::Reply(s) => CommandPlan::Reply(s@),
            CommandStep::Help(None) => CommandPlan::Help(None),
            CommandStep::Help(Some(topic)) => CommandPlan::Help(Some(topic@)),
            CommandStep::Render(source) => CommandPlan::Render(source@),
        }
    }
}

/// What a trimmed message asks for. `/help` takes an optional topic; `/typd` takes a source, in
/// which a tag shorthand is written out; the other commands have fixed answers.
pub open spec fn command_plan(message: Seq<char>) -> CommandPlan {
    if message == "/help"@ || "/help "@.is_prefix_of(message) {
        let topic = text::trimmed(message.skip(5));
        CommandPlan::Help(
            if topic.len() == 0 {
                None
            } else {
                Some(topic)
            },
        )
    } else if "/typd"@.is_prefix_of(message) {
        let source = text::trimmed(text::without_prefix(message, "/typd"@));
        if source.len() == 0 {
            CommandPlan::Reply("请提供 Typst 代码，例如：/typd $E = mc^2$"@)
        } else {
            CommandPlan::Render(tag_shorthand::rewritten(source))
        }
    } else {
        let head = text::first_word(message);
        if head == "/about"@ {
            CommandPlan::Reply("Typst 渲染！"@)
        } else if head == "/tex"@ {
            CommandPlan::Reply("目前停止提供TeX渲染，请通过 /typd 指令使用Typst渲染。"@)
        } else if head == "/typm"@ {
            CommandPlan::Reply("未注册指令。"@)
        } else {
            CommandPlan::Ignore
        }
    }
}

/// Finds out what a trimmed message asks for.
pub fn process_command(message: &str) -> (r: CommandStep)
    ensures
        r@ == command_plan(message@),
{
    if text::same_text(message, "/help") || text::starts_with(message, "/help ") {
        proof {
            reveal_strlit("/help");
            reveal_strlit("/help ");
        }
        let n: usize = message.unicode_len();
        proof {
            assert(message@.subrange(5, n as int) == message@.skip(5));
        }
        let topic = text::trim(message.substring_char(5, n));
        if topic.is_empty() {
            return CommandStep::Help(None);
        }
        return CommandStep::Help(Some(topic.to_owned()));
    }
    if text::starts_with(message, "/typd") {
        let source = text::trim(text::trim_start_matches(message, "/typd"));
        if source.is_empty() {
            return CommandStep::Reply(
                "请提供 Typst 代码，例如：/typd $E = mc^2$".to_owned(),
            );
        }
        return CommandStep::Render(tag_shorthand::rewrite_tag_shorthand(source));
    }
    let head = command_head(message);
    if text::same_text(head, "/about") {
        CommandStep::Reply("Typst 渲染！".to_owned())
    } else if text::same_text(head, "/tex") {
        CommandStep::Reply(
            "目前停止提供TeX渲染，请通过 /typd 指令使用Typst渲染。".to_owned(),
        )
    } else if text::same_text(head, "/typm") {
        CommandStep::Reply("未注册指令。".to_owned())
    } else {
        CommandStep::Ignore
    }
}

/// The answer to a command that needed work.
#[derive(Debug)]
pub enum CommandOutcome {
    Text(String),
    Png(Vec<u8>),
}

/// The template that sources are rendered with.
pub open spec fn render_template() -> Seq<char> {
    "quiconf"@
}

/// The answer to a render: the image, or the message of the error.
pub fn render_outcome(result: Result<Vec<u8>, WorkerError>) -> (r: CommandOutcome)
    ensures
        match result {
            Ok(image) => r == CommandOutcome::Png(image),
            Err(e) => r matches CommandOutcome::Text(s) && s@ == "渲染失败："@
                + crate::worker::error_text(e),
        },
{
    match result {
        Ok(image) => CommandOutcome::Png(image),
        Err(e) => CommandOutcome::Text("渲染失败：".to_owned().concat(e.message().as_str())),
    }
}

/// The answer in place of an image that could not be sent.
pub fn image_fallback(cause: &str) -> (r: String)
    ensures
        r@ == "图片已生成但发送失败："@ + cause@,
{
    "图片已生成但发送失败：".to_owned().concat(cause)
}

/// The view of [`Conversation`].
pub enum ConversationModel {
    Start,
    ReadingHelp(Option<Seq<char>>),
    Rendering,
    SendingText,
    SendingImage,
    SendingFallback,
    Finished,
}

/// How far the answer to a message has come.
#[derive(Debug)]
pub enum Conversation {
    Start,
    /// The file with the help on a topic is being read.
    ReadingHelp(Option<String>),
    /// A worker renders.
    Rendering,
    /// A text is being sent.
    SendingText,
    /// An image is being sent.
    SendingImage,
    /// A text is being sent in place of an image.
    SendingFallback,
    Finished,
}

impl View for Conversation {
    type V = ConversationModel;

    open spec fn view(&self) -> ConversationModel {
        match *self {
            Conversation::Start => ConversationModel::Start,
            Conversation::ReadingHelp(None) => ConversationModel::ReadingHelp(None),
            Conversation::ReadingHelp(Some(topic)) => ConversationModel::ReadingHelp(Some(topic@)),
            Conversation::Rendering => ConversationModel::Rendering,
            Conversation::SendingText => ConversationModel::SendingText,
            Conversation::SendingImage => ConversationModel::SendingImage,
            Conversation::SendingFallback => ConversationModel::SendingFallback,
            Conversation::Finished => ConversationModel::Finished,
        }
    }
}

/// The view of [`BotEvent`].
pub enum EventModel {
    Received(Option<Seq<char>>),
    HelpRead(Option<Seq<char>>),
    Rendered(Result<Seq<u8>, WorkerError>),
    Sent(Option<Seq<char>>),
}

/// What happened since the last action.
#[derive(Debug)]
pub enum BotEvent {
    /// A message came, with its content where it has one.
    Received(Option<String>),
    /// The help file was read, or could not be.
    HelpRead(Option<String>),
    /// The render ended.
    Rendered(Result<Vec<u8>, WorkerError>),
    /// The answer was sent, or failed with a cause.
    Sent(Option<String>),
}

/// The characters of an optional string.
pub open spec fn opt_string_view(s: Option<String>) -> Option<Seq<char>> {
    match s {
        Some(t) => Some(t@),
        None => None,
    }
}

impl View for BotEvent {
    type V = EventModel;

    open spec fn view(&self) -> EventModel {
        match *self {
            BotEvent::Received(content) => EventModel::Received(opt_string_view(content)),
            BotEvent::HelpRead(contents) => EventModel::HelpRead(opt_string_view(contents)),
            BotEvent::Rendered(Ok(image)) => EventModel::Rendered(Ok(image@)),
            BotEvent::Rendered(Err(e)) => EventModel::Rendered(Err(e)),
            BotEvent::Sent(cause) => EventModel::Sent(opt_string_view(cause)),
        }
    }
}

/// The view of [`BotAction`].
pub enum ActionModel {
    ReadHelp(Seq<char>),
    Render(Seq<char>, Seq<char>),
    SendText(Seq<char>),
    SendImage(Seq<u8>),
    Stop,
}

/// What is to be done next.
#[derive(Debug)]
pub enum BotAction {
    /// Read the file at this path.
    ReadHelp(String),
    /// Render a source with a template.
    Render(String, String),
    /// Answer with a text.
    SendText(String),
    /// Answer with a PNG.
    SendImage(Vec<u8>),
    /// The message is dealt with.
    Stop,
}

impl View for BotAction {
    type V = ActionModel;

    open spec fn view(&self) -> ActionModel {
        match *self {
            BotAction::ReadHelp(path) => ActionModel::ReadHelp(path@),
            BotAction::Render(source, template) => ActionModel::Render(source@, template@),
            BotAction::SendText(s) => ActionModel::SendText(s@),
            BotAction::SendImage(image) => ActionModel::SendImage(image@),
            BotAction::Stop => ActionModel::Stop,
        }
    }
}

/// Whether an event can follow on a state.
pub open spec fn expects(state: ConversationModel, event: EventModel) -> bool {
    match state {
        ConversationModel::Start => event is Received,
        ConversationModel::ReadingHelp(_) => event is HelpRead,
        ConversationModel::Rendering => event is Rendered,
        ConversationModel::SendingText => event is Sent,
        ConversationModel::SendingImage => event is Sent,
        ConversationModel::SendingFallback => event is Sent,
        ConversationModel::Finished => false,
    }
}

/// How the answer to a message begins.
pub open spec fn opening(content: Option<Seq<char>>) -> (ConversationModel, ActionModel) {
    match content {
        None => (ConversationModel::Finished, ActionModel::Stop),
        Some(message) => match command_plan(text::trimmed(message)) {
            CommandPlan::Ignore => (ConversationModel::Finished, ActionModel::Stop),
            CommandPlan::Reply(s) => (ConversationModel::SendingText, ActionModel::SendText(s)),
            CommandPlan::Help(topic) => match help_file(topic) {
                Some(file) => (
                    ConversationModel::ReadingHelp(topic),
                    ActionModel::ReadHelp("resources/help-messages/"@ + file),
                ),
                None => (
                    ConversationModel::SendingText,
                    ActionModel::SendText(help_text(topic, None)),
                ),
            },
            CommandPlan::Render(source) => (
                ConversationModel::Rendering,
                ActionModel::Render(source, render_template()),
            ),
        },
    }
}

/// The next state of a conversation and the next action.
pub open spec fn next(state: ConversationModel, event: EventModel) -> (
    ConversationModel,
    ActionModel,
) {
    match (state, event) {
        (ConversationModel::Start, EventModel::Received(content)) => opening(content),
        (ConversationModel::ReadingHelp(topic), EventModel::HelpRead(contents)) => (
            ConversationModel::SendingText,
            ActionModel::SendText(help_text(topic, contents)),
        ),
        (ConversationModel::Rendering, EventModel::Rendered(Ok(image))) => (
            ConversationModel::SendingImage,
            ActionModel::SendImage(image),
        ),
        (ConversationModel::Rendering, EventModel::Rendered(Err(e))) => (
            ConversationModel::SendingText,
            ActionModel::SendText("渲染失败："@ + crate::worker::error_text(e)),
        ),
        (ConversationModel::SendingImage, EventModel::Sent(Some(cause))) => (
            ConversationModel::SendingFallback,
            ActionModel::SendText("图片已生成但发送失败："@ + cause),
        ),
        _ => (ConversationModel::Finished, ActionModel::Stop),
    }
}

/// The beginning of the answer to a message.
fn open_conversation(content: Option<String>) -> (r: (Conversation, BotAction))
    ensures
        (r.0@, r.1@) == opening(opt_string_view(content)),
{
    let message = match content {
        None => {
            return (Conversation::Finished, BotAction::Stop);
        },
        Some(message) => message,
    };
    match process_command(text::trim(message.as_str())) {
        CommandStep::Ignore => (Conversation::Finished, BotAction::Stop),
        CommandStep::Reply(s) => (Conversation::SendingText, BotAction::SendText(s)),
        CommandStep::Help(None) => match help_message_path(None) {
            Some(path) => (Conversation::ReadingHelp(None), BotAction::ReadHelp(path)),
            None => (
                Conversation::SendingText,
                BotAction::SendText(load_help_message(None, None)),
            ),
        },
        CommandStep::Help(Some(topic)) => match help_message_path(Some(topic.as_str())) {
            Some(path) => (Conversation::ReadingHelp(Some(topic)), BotAction::ReadHelp(path)),
            None => (
                Conversation::SendingText,
                BotAction::SendText(load_help_message(Some(topic.as_str()), None)),
            ),
        },
        CommandStep::Render(source) => (
            Conversation::Rendering,
            BotAction::Render(source, "quiconf".to_owned()),
        ),
    }
}

impl Conversation {
    /// Takes the conversation from an event to the next action. The answer to a message is the same
    /// in a group and in private; only the ways to send differ.
    pub fn step(self, event: BotEvent) -> (r: (Conversation, BotAction))
        requires
            expects(self@, event@),
        ensures
            (r.0@, r.1@) == next(self@, event@),
    {
        match (self, event) {
            (Conversation::Start, BotEvent::Received(content)) => open_conversation(content),
            (Conversation::ReadingHelp(None), BotEvent::HelpRead(None)) => (
                Conversation::SendingText,
                BotAction::SendText(load_help_message(None, None)),
            ),
            (Conversation::ReadingHelp(None), BotEvent::HelpRead(Some(contents))) => (
                Conversation::SendingText,
                BotAction::SendText(load_help_message(None, Some(contents.as_str()))),
            ),
            (Conversation::ReadingHelp(Some(topic)), BotEvent::HelpRead(None)) => (
                Conversation::SendingText,
                BotAction::SendText(load_help_message(Some(topic.as_str()), None)),
            ),
            (Conversation::ReadingHelp(Some(topic)), BotEvent::HelpRead(Some(contents))) => (
                Conversation::SendingText,
                BotAction::SendText(
                    load_help_message(Some(topic.as_str()), Some(contents.as_str())),
                ),
            ),
            (Conversation::Rendering, BotEvent::Rendered(result)) => match render_outcome(result) {
                CommandOutcome::Png(image) => (
                    Conversation::SendingImage,
                    BotAction::SendImage(image),
                ),
                CommandOutcome::Text(s) => (Conversation::SendingText, BotAction::SendText(s)),
            },
            (Conversation::SendingImage, BotEvent::Sent(Some(cause))) => (
                Conversation::SendingFallback,
                BotAction::SendText(image_fallback(cause.as_str())),
            ),
            _ => (Conversation::Finished, BotAction::Stop),
        }
    }
}

/// How many actions a conversation can still take.
pub open spec fn steps_left(state: ConversationModel) -> nat {
    match state {
        ConversationModel::Start => 4,
        ConversationModel::ReadingHelp(_) => 3,
        ConversationModel::Rendering => 3,
        ConversationModel::SendingImage => 2,
        ConversationModel::SendingText => 1,
        ConversationModel::SendingFallback => 1,
        ConversationModel::Finished => 0,
    }
}

/// Every message is dealt with in at most four steps: each step brings the end nearer, and the bot
/// stops exactly at the end.
pub proof fn law_conversation_ends(state: ConversationModel, event: EventModel)
    requires
        expects(state, event),
    ensures
        steps_left(next(state, event).0) < steps_left(state),
        next(state, event).1 is Stop <==> next(state, event).0 is Finished,
{
}

/// A rendered image is sent byte for byte; where it cannot be sent, a text with the cause is sent
/// once in its place, and nothing after that, whether it arrives or not.
pub proof fn law_image_or_one_fallback(
    image: Seq<u8>,
    cause: Seq<char>,
    result: Option<Seq<char>>,
)
    ensures
        next(ConversationModel::Rendering, EventModel::Rendered(Ok(image))) == (
            ConversationModel::SendingImage,
            ActionModel::SendImage(image),
        ),
        next(ConversationModel::SendingImage, EventModel::Sent(None)).1 is Stop,
        next(ConversationModel::SendingImage, EventModel::Sent(Some(cause))) == (
            ConversationModel::SendingFallback,
            ActionModel::SendText("图片已生成但发送失败："@ + cause),
        ),
        next(ConversationModel::SendingFallback, EventModel::Sent(result)).1 is Stop,
{
}

/// A text is sent once, whether it arrives or not.
pub proof fn law_text_is_sent_once(result: Option<Seq<char>>)
    ensures
        next(ConversationModel::SendingText, EventModel::Sent(result)) == (
            ConversationModel::Finished,
            ActionModel::Stop,
        ),
{
}

/// A message whose first character, white space apart, is not a slash is not answered.
pub proof fn law_plain_talk_is_ignored(message: Seq<char>)
    requires
        text::trimmed(message).len() == 0 || text::trimmed(message)[0] != '/',
    ensures
        opening(Some(message)) == (ConversationModel::Finished, ActionModel::Stop),
{
    reveal_strlit("/help");
    reveal_strlit("/help ");
    reveal_strlit("/typd");
    reveal_strlit("/about");
    reveal_strlit("/tex");
    reveal_strlit("/typm");
    let m = text::trimmed(message);
    text::lemma_trimmed_start(message);
    text::lemma_trimmed_end(text::trimmed_start(message));
    let head = text::first_word(m);
    assert("/help"@[0] == '/' && "/help "@[0] == '/' && "/typd"@[0] == '/');
    assert("/about"@[0] == '/' && "/tex"@[0] == '/' && "/typm"@[0] == '/');
    if m.len() > 0 {
        assert(m[0] == text::trimmed_start(message)[0]);
        assert(!text::is_white_space(m[0]));
        assert(text::trimmed_start(m) == m);
        text::lemma_word_len(m);
        if head.len() > 0 {
            assert(head[0] == m[0]);
        }
    } else {
        assert(text::trimmed_start(m) == m);
        assert(text::word_len(m) == 0);
        assert(head.len() == 0);
    }
    assert(command_plan(m) is Ignore);
}

/// A message that is a command of five characters, a space and an argument, white space around
/// the argument or not: what the command is asked with.
proof fn lemma_argument(command: Seq<char>, argument: Seq<char>)
    requires
        command.len() == 5,
        command[0] == '/',
        text::trimmed(argument).len() > 0,
    ensures
        ({
            let m = text::trimmed(command + " "@ + argument);
            &&& (command + " "@).is_prefix_of(m)
            &&& command.is_prefix_of(m)
            &&& m.skip(5)[0] == ' '
            &&& text::trimmed(m.skip(5)) == text::trimmed(argument)
        }),
{
    reveal_strlit(" ");
    let whole = command + " "@ + argument;
    let (from, to) = text::lemma_trimmed_bounds(argument);
    assert forall|i: int| to + 6 <= i < whole.len() implies text::is_white_space(
        #[trigger] whole[i],
    ) by {
        assert(whole[i] == argument[i - 6]);
    }
    text::lemma_trimmed_is(whole, 0, to + 6);
    let m = text::trimmed(whole);
    let rest = m.skip(5);
    assert forall|i: int| 0 <= i < from + 1 implies text::is_white_space(#[trigger] rest[i]) by {
        if i > 0 {
            assert(rest[i] == argument[i - 1]);
        }
    }
    text::lemma_trimmed_is(rest, from + 1, to + 1);
    assert(rest.subrange(from + 1, to + 1) == argument.subrange(from, to));
}

/// `/typd` and a source ask for the image of the source, with a tag shorthand written out; white
/// space around the source does not count.
pub proof fn law_typd_renders_source(source: Seq<char>)
    requires
        text::trimmed(source).len() > 0,
    ensures
        opening(Some("/typd"@ + " "@ + source)) == (
            ConversationModel::Rendering,
            ActionModel::Render(
                tag_shorthand::rewritten(text::trimmed(source)),
                render_template(),
            ),
        ),
{
    reveal_strlit("/typd");
    reveal_strlit("/help");
    reveal_strlit("/help ");
    lemma_argument("/typd"@, source);
    let m = text::trimmed("/typd"@ + " "@ + source);
    assert(m[1] == "/typd"@[1]);
    assert("/help"@[1] == 'h');
    assert("/help "@[1] == 'h');
    assert(text::without_prefix(m.skip(5), "/typd"@) == m.skip(5));
    assert(text::without_prefix(m, "/typd"@) == m.skip(5));
}

/// `/help` and a topic ask for the help on it: the file of a known topic is read, an unknown topic
/// is answered with the list of those known. White space around the topic does not count.
pub proof fn law_help_takes_topic(topic: Seq<char>)
    requires
        text::trimmed(topic).len() > 0,
    ensures
        ({
            let t = Some(text::trimmed(topic));
            opening(Some("/help"@ + " "@ + topic)) == match help_file(t) {
                Some(file) => (
                    ConversationModel::ReadingHelp(t),
                    ActionModel::ReadHelp("resources/help-messages/"@ + file),
                ),
                None => (
                    ConversationModel::SendingText,
                    ActionModel::SendText(
                        "未知帮助主题，可用：tag、dep、example"@,
                    ),
                ),
            }
        }),
{
    reveal_strlit("/help");
    reveal_strlit("/help ");
    reveal_strlit(" ");
    lemma_argument("/help"@, topic);
    assert("/help"@ + " "@ == "/help "@);
}

/// The bot always has an answer for `/help`: it is never empty.
pub proof fn law_help_is_never_empty(topic: Option<Seq<char>>, contents: Option<Seq<char>>)
    ensures
        help_text(topic, contents).len() > 0,
{
    reveal_strlit("未知帮助主题，可用：tag、dep、example");
    reveal_strlit("例文暂未提供。");
    reveal_strlit("帮助文案暂不可用。");
}

/// There is help on the bot as a whole, on `tag`, on `dep` and on `example`, and on nothing else;
/// the file of a topic is named after it.
pub proof fn law_help_files_are_named_after_topics(topic: Seq<char>)
    ensures
        help_file(None) == Some("help.txt"@),
        help_file(Some(topic)) is Some <==> topic == "tag"@ || topic == "dep"@ || topic
            == "example"@,
        help_file(Some(topic)) is Some ==> help_file(Some(topic)) == Some(
            "help_"@ + topic + ".txt"@,
        ),
{
    reveal_strlit("tag");
    reveal_strlit("dep");
    reveal_strlit("example");
    reveal_strlit("help_");
    reveal_strlit(".txt");
    reveal_strlit("help_tag.txt");
    reveal_strlit("help_dep.txt");
    reveal_strlit("help_example.txt");
    assert("help_"@ + "tag"@ + ".txt"@ == "help_tag.txt"@);
    assert("help_"@ + "dep"@ + ".txt"@ == "help_dep.txt"@);
    assert("help_"@ + "example"@ + ".txt"@ == "help_example.txt"@);
}

/// The help on a known topic is what its file holds, all of it, from its first to its last character
/// that is not white space, and it is sent as it is.
pub proof fn law_help_is_the_whole_file(
    topic: Option<Seq<char>>,
    before: Seq<char>,
    help: Seq<char>,
    after: Seq<char>,
)
    requires
        topic is None || topic == Some("tag"@) || topic == Some("dep"@) || topic == Some(
            "example"@,
        ),
        forall|i: int| 0 <= i < before.len() ==> text::is_white_space(#[trigger] before[i]),
        forall|i: int| 0 <= i < after.len() ==> text::is_white_space(#[trigger] after[i]),
        help.len() > 0,
        !text::is_white_space(help[0]),
        !text::is_white_space(help.last()),
    ensures
        help_text(topic, Some(before + help + after)) == help,
        next(
            ConversationModel::ReadingHelp(topic),
            EventModel::HelpRead(Some(before + help + after)),
        ) == (ConversationModel::SendingText, ActionModel::SendText(help)),
{
    text::law_trimming_keeps_the_middle(before, help, after);
}

/// The same, said of any contents that are not blank: there are a first and a last character that
/// is not white space, and the help is what stands from the one to the other.
pub proof fn law_help_runs_from_first_to_last_character(
    topic: Option<Seq<char>>,
    contents: Seq<char>,
)
    requires
        help_file(topic) is Some,
        exists|i: int| 0 <= i < contents.len() && !text::is_white_space(#[trigger] contents[i]),
    ensures
        exists|from: int, to: int|
            #![trigger contents.subrange(from, to)]
            {
                &&& 0 <= from < to <= contents.len()
                &&& forall|i: int|
                    0 <= i < contents.len() && !(from <= i < to) ==> text::is_white_space(
                        #[trigger] contents[i],
                    )
                &&& !text::is_white_space(contents[from])
                &&& !text::is_white_space(contents[to - 1])
                &&& help_text(topic, Some(contents)) == contents.subrange(from, to)
            },
{
    if text::trimmed(contents).len() == 0 {
        text::lemma_blank(contents);
    }
    let (from, to) = text::lemma_trimmed_bounds(contents);
    let before = contents.take(from);
    let help = contents.subrange(from, to);
    let after = contents.skip(to);
    assert(contents == before + help + after);
    assert(help.last() == contents[to - 1]);
    law_help_files_are_named_after_topics(topic.unwrap_or("tag"@));
    law_help_is_the_whole_file(topic, before, help, after);
    assert(help_text(topic, Some(contents)) == contents.subrange(from, to));
}

/// Where there is no help to give the bot says why: an unknown topic is answered with those that
/// are known, a file that cannot be read or is blank with a word that there is none, and a blank
/// example with one of its own.
pub proof fn law_missing_help_is_explained(topic: Option<Seq<char>>, blank: Seq<char>)
    requires
        forall|i: int| 0 <= i < blank.len() ==> text::is_white_space(#[trigger] blank[i]),
    ensures
        topic is Some && topic->0 != "tag"@ && topic->0 != "dep"@ && topic->0 != "example"@
            ==> help_text(topic, None) == "未知帮助主题，可用：tag、dep、example"@ && help_text(
            topic,
            Some(blank),
        ) == "未知帮助主题，可用：tag、dep、example"@,
        topic is None || topic->0 == "tag"@ || topic->0 == "dep"@ ==> help_text(topic, None)
            == "帮助文案暂不可用。"@ && help_text(topic, Some(blank)) == "帮助文案暂不可用。"@,
        topic is Some && topic->0 == "example"@ ==> help_text(topic, None)
            == "帮助文案暂不可用。"@ && help_text(topic, Some(blank)) == "例文暂未提供。"@,
        next(ConversationModel::ReadingHelp(topic), EventModel::HelpRead(None)) == (
            ConversationModel::SendingText,
            ActionModel::SendText(help_text(topic, None)),
        ),
        next(ConversationModel::ReadingHelp(topic), EventModel::HelpRead(Some(blank))) == (
            ConversationModel::SendingText,
            ActionModel::SendText(help_text(topic, Some(blank))),
        ),
{
    reveal_strlit("tag");
    reveal_strlit("dep");
    reveal_strlit("example");
    let nothing = Seq::<char>::empty();
    text::law_trimming_keeps_the_middle(blank, nothing, nothing);
    assert(blank + nothing + nothing == blank);
    assert("tag"@[0] == 't');
    assert("dep"@[0] == 'd');
    assert("example"@[0] == 'e');
}

/// Trimming a message that begins with a command leaves the command and takes the white space at
/// its end alone.
proof fn lemma_command_trimmed(command: Seq<char>, t: Seq<char>)
    requires
        command.len() > 0,
        !text::is_white_space(command[0]),
        !text::is_white_space(command.last()),
    ensures
        text::trimmed(command + t) == command + text::trimmed_end(t),
        text::trimmed(text::trimmed_end(t)) == text::trimmed(t),
{
    text::lemma_trimmed_end(t);
    text::lemma_trimmed_of_trimmed_end(t);
    let n = text::trimmed_end(t).len() as int;
    let m = command + t.take(n);
    let after = t.skip(n);
    let nothing = Seq::<char>::empty();
    assert(command + t == nothing + m + after);
    if n > 0 {
        assert(m.last() == t[n - 1]);
    } else {
        assert(m == command);
    }
    text::law_trimming_keeps_the_middle(nothing, m, after);
}

/// `/typd` and whatever follows it, white space between the two or none: the image of what follows
/// is asked for, with a tag shorthand written out, without white space around it and with the
/// template `quiconf`; where nothing but white space follows, the bot tells how to use the command.
pub proof fn law_typd_takes_what_follows(t: Seq<char>)
    requires
        !"/typd"@.is_prefix_of(t),
    ensures
        (exists|i: int| 0 <= i < t.len() && !text::is_white_space(#[trigger] t[i])) ==> {
            &&& command_plan("/typd"@ + t) == CommandPlan::Render(
                tag_shorthand::rewritten(text::trimmed(t)),
            )
            &&& opening(Some("/typd"@ + t)) == (
                ConversationModel::Rendering,
                ActionModel::Render(tag_shorthand::rewritten(text::trimmed(t)), "quiconf"@),
            )
        },
        (forall|i: int| 0 <= i < t.len() ==> text::is_white_space(#[trigger] t[i])) ==> {
            &&& command_plan("/typd"@ + t) == CommandPlan::Reply(
                "请提供 Typst 代码，例如：/typd $E = mc^2$"@,
            )
            &&& opening(Some("/typd"@ + t)) == (
                ConversationModel::SendingText,
                ActionModel::SendText("请提供 Typst 代码，例如：/typd $E = mc^2$"@),
            )
        },
{
    reveal_strlit("/typd");
    let end = text::trimmed_end(t);
    text::lemma_trimmed_end(t);
    lemma_command_trimmed("/typd"@, t);
    assert(!"/typd"@.is_prefix_of(end)) by {
        if "/typd"@.is_prefix_of(end) {
            assert(forall|i: int| 0 <= i < 5 ==> "/typd"@[i] == end[i] && end[i] == t[i]);
        }
    }
    lemma_typd_plan(t);
    lemma_typd_plan(end);
    if text::trimmed(t).len() == 0 {
        text::lemma_blank(t);
    } else {
        let (from, to) = text::lemma_trimmed_bounds(t);
        assert(!text::is_white_space(t[from]));
    }
}

/// What `/typd` with `t` behind it asks for.
proof fn lemma_typd_plan(t: Seq<char>)
    requires
        !"/typd"@.is_prefix_of(t),
    ensures
        command_plan("/typd"@ + t) == if text::trimmed(t).len() == 0 {
            CommandPlan::Reply("请提供 Typst 代码，例如：/typd $E = mc^2$"@)
        } else {
            CommandPlan::Render(tag_shorthand::rewritten(text::trimmed(t)))
        },
{
    reveal_strlit("/typd");
    reveal_strlit("/help");
    reveal_strlit("/help ");
    let message = "/typd"@ + t;
    assert(message[1] == 't' && "/help"@[1] == 'h' && "/help "@[1] == 'h');
    assert("/typd"@.is_prefix_of(message));
    text::law_every_repetition_is_taken_away(t, "/typd"@);
}

/// A `/typd` that is written twice counts once.
pub proof fn law_repeated_typd_counts_once(t: Seq<char>)
    ensures
        command_plan("/typd"@ + ("/typd"@ + t)) == command_plan("/typd"@ + t),
{
    reveal_strlit("/typd");
    reveal_strlit("/help");
    reveal_strlit("/help ");
    let once = "/typd"@ + t;
    let twice = "/typd"@ + once;
    assert(once[1] == 't' && twice[1] == 't' && "/help"@[1] == 'h' && "/help "@[1] == 'h');
    assert("/typd"@.is_prefix_of(once) && "/typd"@.is_prefix_of(twice));
    text::law_every_repetition_is_taken_away(once, "/typd"@);
}

/// `/about`, `/tex` and `/typm` have fixed answers, whatever stands behind the word.
pub proof fn law_fixed_answers(rest: Seq<char>)
    requires
        rest.len() > 0 ==> text::is_white_space(rest[0]),
    ensures
        command_plan("/about"@ + rest) == CommandPlan::Reply("Typst 渲染！"@),
        command_plan("/tex"@ + rest) == CommandPlan::Reply(
            "目前停止提供TeX渲染，请通过 /typd 指令使用Typst渲染。"@,
        ),
        command_plan("/typm"@ + rest) == CommandPlan::Reply("未注册指令。"@),
        opening(Some("/about"@ + rest)) == (
            ConversationModel::SendingText,
            ActionModel::SendText("Typst 渲染！"@),
        ),
        opening(Some("/tex"@ + rest)) == (
            ConversationModel::SendingText,
            ActionModel::SendText(
                "目前停止提供TeX渲染，请通过 /typd 指令使用Typst渲染。"@,
            ),
        ),
        opening(Some("/typm"@ + rest)) == (
            ConversationModel::SendingText,
            ActionModel::SendText("未注册指令。"@),
        ),
{
    reveal_strlit("/about");
    reveal_strlit("/tex");
    reveal_strlit("/typm");
    reveal_strlit("/help");
    reveal_strlit("/typd");
    assert("/help"@.len() == 5 && "/help"@[1] == 'h');
    assert("/typd"@.len() == 5 && "/typd"@[1] == 't' && "/typd"@[4] == 'd');
    assert("/about"@.len() == 6 && "/tex"@.len() == 4);
    assert("/about"@[1] == 'a' && "/tex"@[1] == 't' && "/tex"@[2] == 'e');
    assert("/typm"@.len() == 5 && "/typm"@[4] == 'm');
    let end = text::trimmed_end(rest);
    text::lemma_trimmed_end(rest);
    assert(end.len() > 0 ==> end[0] == rest[0]);
    lemma_command_trimmed("/about"@, rest);
    lemma_command_trimmed("/tex"@, rest);
    lemma_command_trimmed("/typm"@, rest);
    lemma_word_plan("/about"@, rest);
    lemma_word_plan("/tex"@, rest);
    lemma_word_plan("/typm"@, rest);
    lemma_word_plan("/about"@, end);
    lemma_word_plan("/tex"@, end);
    lemma_word_plan("/typm"@, end);
    assert("/about"@ != "/tex"@ && "/typm"@ != "/tex"@ && "/typm"@ != "/about"@) by {
        assert("/typm"@.len() != "/tex"@.len());
    }
}

/// What a message asks for whose first word is neither `/help` nor begins with `/typd`.
proof fn lemma_word_plan(word: Seq<char>, rest: Seq<char>)
    requires
        word.len() > 0,
        forall|i: int| 0 <= i < word.len() ==> !text::is_white_space(#[trigger] word[i]),
        rest.len() > 0 ==> text::is_white_space(rest[0]),
        word == "/help"@ ==> rest.len() > 0 && rest[0] != ' ',
        !"/typd"@.is_prefix_of(word),
    ensures
        command_plan(word + rest) == if word == "/about"@ {
            CommandPlan::Reply("Typst 渲染！"@)
        } else if word == "/tex"@ {
            CommandPlan::Reply("目前停止提供TeX渲染，请通过 /typd 指令使用Typst渲染。"@)
        } else if word == "/typm"@ {
            CommandPlan::Reply("未注册指令。"@)
        } else {
            CommandPlan::Ignore
        },
{
    reveal_strlit("/typd");
    reveal_strlit("/help");
    reveal_strlit("/help ");
    let message = word + rest;
    let nothing = Seq::<char>::empty();
    text::law_first_word_ends_at_white_space(nothing, word, rest);
    assert(nothing + word + rest == message);
    assert("/typd"@.len() == 5 && "/help"@.len() == 5 && "/help "@.len() == 6);
    assert(forall|i: int| 0 <= i < 5 ==> "/help "@[i] == "/help"@[i]);
    assert("/help "@[5] == ' ');
    assert(!text::is_white_space('/') && !text::is_white_space('h') && !text::is_white_space('e')
        && !text::is_white_space('l') && !text::is_white_space('p') && !text::is_white_space('t')
        && !text::is_white_space('y') && !text::is_white_space('d'));
    if "/typd"@.is_prefix_of(message) {
        if word.len() < 5 {
            assert(message[word.len() as int] == rest[0]);
            assert(message[word.len() as int] == "/typd"@[word.len() as int]);
        } else {
            assert(forall|i: int| 0 <= i < 5 ==> "/typd"@[i] == message[i] && message[i] == word[i]);
        }
    }
    if message == "/help"@ {
        if word.len() < 5 {
            assert(message[word.len() as int] == rest[0]);
        } else {
            assert(word == "/help"@);
        }
    }
    if "/help "@.is_prefix_of(message) {
        assert(forall|i: int| 0 <= i < 6 ==> "/help "@[i] == message[i]);
        if word.len() < 5 {
            assert(message[word.len() as int] == rest[0]);
        } else if word.len() > 5 {
            assert(message[5] == word[5]);
        } else {
            assert(word == "/help"@);
            assert(message[5] == rest[0]);
        }
    }
}

/// Any other word is not answered. `/help` is one of these words where something else than a space
/// follows on it.
pub proof fn law_other_words_are_ignored(word: Seq<char>, rest: Seq<char>)
    requires
        word.len() > 0,
        forall|i: int| 0 <= i < word.len() ==> !text::is_white_space(#[trigger] word[i]),
        rest.len() > 0 ==> text::is_white_space(rest[0]),
        word == "/help"@ ==> rest.len() > 0 && rest[0] != ' ',
        !"/typd"@.is_prefix_of(word),
        word != "/about"@,
        word != "/tex"@,
        word != "/typm"@,
    ensures
        command_plan(word + rest) == CommandPlan::Ignore,
{
    lemma_word_plan(word, rest);
}

/// `/help` asks for help: on what follows a space behind it, without white space around it, or on
/// the bot as a whole where nothing but white space follows.
pub proof fn law_help_asks_for_its_topic(topic: Seq<char>, blank: Seq<char>, after: Seq<char>)
    requires
        forall|i: int| 0 <= i < after.len() ==> text::is_white_space(#[trigger] after[i]),
        topic.len() > 0 ==> !text::is_white_space(topic[0]) && !text::is_white_space(topic.last()),
        forall|i: int| 0 <= i < blank.len() ==> text::is_white_space(#[trigger] blank[i]),
    ensures
        command_plan("/help"@) == CommandPlan::Help(None),
        topic.len() > 0 ==> command_plan("/help "@ + (blank + topic + after)) == CommandPlan::Help(
            Some(topic),
        ),
        command_plan("/help "@ + blank) == CommandPlan::Help(None),
        opening(Some("/help"@ + blank)) == (
            ConversationModel::ReadingHelp(None),
            ActionModel::ReadHelp("resources/help-messages/help.txt"@),
        ),
{
    reveal_strlit("/help");
    reveal_strlit("/help ");
    reveal_strlit("resources/help-messages/");
    reveal_strlit("help.txt");
    reveal_strlit("resources/help-messages/help.txt");
    let nothing = Seq::<char>::empty();
    text::law_trimming_keeps_the_middle(nothing, nothing, nothing);
    assert(nothing + nothing + nothing == nothing);
    assert("/help"@.skip(5) == nothing);
    let spaced = seq![' '] + blank;
    text::law_trimming_keeps_the_middle(spaced, topic, after);
    text::law_trimming_keeps_the_middle(spaced, nothing, nothing);
    let asked = "/help "@ + (blank + topic + after);
    assert(asked.skip(5) == spaced + topic + after);
    assert("/help "@.is_prefix_of(asked));
    let bare = "/help "@ + blank;
    assert(bare.skip(5) == spaced + nothing + nothing);
    assert("/help "@.is_prefix_of(bare));
    text::law_trimming_keeps_the_middle(nothing, nothing, blank);
    lemma_command_trimmed("/help"@, blank);
    assert(nothing + blank == blank);
    assert("/help"@ + nothing == "/help"@);
    assert("resources/help-messages/"@ + "help.txt"@ == "resources/help-messages/help.txt"@);
}

/// White space around a message does not count, and a message without content is not answered.
pub proof fn law_space_around_message_does_not_count(
    before: Seq<char>,
    message: Seq<char>,
    after: Seq<char>,
)
    requires
        forall|i: int| 0 <= i < before.len() ==> text::is_white_space(#[trigger] before[i]),
        forall|i: int| 0 <= i < after.len() ==> text::is_white_space(#[trigger] after[i]),
    ensures
        opening(Some(before + message + after)) == opening(Some(message)),
        next(ConversationModel::Start, EventModel::Received(Some(before + message + after)))
            == opening(Some(message)),
        next(ConversationModel::Start, EventModel::Received(None)) == (
            ConversationModel::Finished,
            ActionModel::Stop,
        ),
{
    text::law_blank_around_does_not_count(before, message, after);
}

/// Every render that ends is answered: a failed one with a text that gives the message of its
/// error.
pub proof fn law_failed_render_is_told(e: WorkerError, cause: String)
    ensures
        next(ConversationModel::Rendering, EventModel::Rendered(Err(e))) == (
            ConversationModel::SendingText,
            ActionModel::SendText("渲染失败："@ + crate::worker::error_text(e)),
        ),
        next(
            ConversationModel::Rendering,
            EventModel::Rendered(Err(WorkerError::Compile(cause))),
        ).1 == ActionModel::SendText("渲染失败："@ + "compilation failed: "@ + cause@),
{
    assert("渲染失败："@ + ("compilation failed: "@ + cause@) == "渲染失败："@
        + "compilation failed: "@ + cause@);
}

/// Each state but the last waits for one kind of event, and for every event of that kind.
pub proof fn law_every_outcome_is_expected(
    topic: Option<Seq<char>>,
    words: Option<Seq<char>>,
    result: Result<Seq<u8>, WorkerError>,
    event: EventModel,
)
    ensures
        expects(ConversationModel::Start, EventModel::Received(words)),
        expects(ConversationModel::ReadingHelp(topic), EventModel::HelpRead(words)),
        expects(ConversationModel::Rendering, EventModel::Rendered(result)),
        expects(ConversationModel::SendingText, EventModel::Sent(words)),
        expects(ConversationModel::SendingImage, EventModel::Sent(words)),
        expects(ConversationModel::SendingFallback, EventModel::Sent(words)),
        !expects(ConversationModel::Finished, event),
{
}

/// The views keep every text, every byte and every error: what is said of an event, an action, a
/// state or a plan in terms of its view is said of the whole value.
pub proof fn law_views_keep_everything(
    words: &str,
    s: String,
    t: String,
    image: Vec<u8>,
    e: WorkerError,
)
    ensures
        opt_view(Some(words)) == Some(words@),
        opt_view(None) == None::<Seq<char>>,
        opt_string_view(Some(s)) == Some(s@),
        opt_string_view(None) == None::<Seq<char>>,
        BotEvent::Received(Some(s))@ == EventModel::Received(Some(s@)),
        BotEvent::Received(None)@ == EventModel::Received(None),
        BotEvent::HelpRead(Some(s))@ == EventModel::HelpRead(Some(s@)),
        BotEvent::HelpRead(None)@ == EventModel::HelpRead(None),
        BotEvent::Rendered(Ok(image))@ == EventModel::Rendered(Ok(image@)),
        BotEvent::Rendered(Err(e))@ == EventModel::Rendered(Err(e)),
        BotEvent::Sent(Some(s))@ == EventModel::Sent(Some(s@)),
        BotEvent::Sent(None)@ == EventModel::Sent(None),
        BotAction::ReadHelp(s)@ == ActionModel::ReadHelp(s@),
        BotAction::Render(s, t)@ == ActionModel::Render(s@, t@),
        BotAction::SendText(s)@ == ActionModel::SendText(s@),
        BotAction::SendImage(image)@ == ActionModel::SendImage(image@),
        BotAction::Stop@ == ActionModel::Stop,
        Conversation::Start@ == ConversationModel::Start,
        Conversation::ReadingHelp(Some(s))@ == ConversationModel::ReadingHelp(Some(s@)),
        Conversation::ReadingHelp(None)@ == ConversationModel::ReadingHelp(None),
        Conversation::Rendering@ == ConversationModel::Rendering,
        Conversation::SendingText@ == ConversationModel::SendingText,
        Conversation::SendingImage@ == ConversationModel::SendingImage,
        Conversation::SendingFallback@ == ConversationModel::SendingFallback,
        Conversation::Finished@ == ConversationModel::Finished,
        CommandStep::Ignore@ == CommandPlan::Ignore,
        CommandStep::Reply(s)@ == CommandPlan::Reply(s@),
        CommandStep::Help(Some(s))@ == CommandPlan::Help(Some(s@)),
        CommandStep::Help(None)@ == CommandPlan::Help(None),
        CommandStep::Render(s)@ == CommandPlan::Render(s@),
{
}

/// What a message asks for, white space around it apart, is what is done first: an answer is sent,
/// the help file of a known topic is read, a source is rendered with the template `quiconf`, and
/// where nothing is asked for nothing is done.
pub proof fn law_what_is_asked_for_is_done(message: Seq<char>)
    ensures
        opening(Some(message)) == match command_plan(text::trimmed(message)) {
            CommandPlan::Ignore => (ConversationModel::Finished, ActionModel::Stop),
            CommandPlan::Reply(s) => (ConversationModel::SendingText, ActionModel::SendText(s)),
            CommandPlan::Help(topic) => if topic is None || topic->0 == "tag"@ || topic->0
                == "dep"@ || topic->0 == "example"@ {
                (
                    ConversationModel::ReadingHelp(topic),
                    ActionModel::ReadHelp("resources/help-messages/"@ + help_file(topic)->0),
                )
            } else {
                (
                    ConversationModel::SendingText,
                    ActionModel::SendText("未知帮助主题，可用：tag、dep、example"@),
                )
            },
            CommandPlan::Render(source) => (
                ConversationModel::Rendering,
                ActionModel::Render(source, "quiconf"@),
            ),
        },
{
}

/// Behind white space a command is told by its first word alone: `/about`, `/tex` and `/typm` are
/// answered, and every other word is ignored.
pub proof fn law_word_behind_space_decides(before: Seq<char>, word: Seq<char>, rest: Seq<char>)
    requires
        before.len() > 0,
        forall|i: int| 0 <= i < before.len() ==> text::is_white_space(#[trigger] before[i]),
        forall|i: int| 0 <= i < word.len() ==> !text::is_white_space(#[trigger] word[i]),
        rest.len() > 0 ==> text::is_white_space(rest[0]),
        word.len() == 0 ==> rest.len() == 0,
    ensures
        command_plan(before + word + rest) == if word == "/about"@ {
            CommandPlan::Reply("Typst 渲染！"@)
        } else if word == "/tex"@ {
            CommandPlan::Reply("目前停止提供TeX渲染，请通过 /typd 指令使用Typst渲染。"@)
        } else if word == "/typm"@ {
            CommandPlan::Reply("未注册指令。"@)
        } else {
            CommandPlan::Ignore
        },
{
    reveal_strlit("/help");
    reveal_strlit("/help ");
    reveal_strlit("/typd");
    let message = before + word + rest;
    text::law_first_word_ends_at_white_space(before, word, rest);
    assert(message[0] == before[0]);
    assert("/help"@[0] == '/' && "/help "@[0] == '/' && "/typd"@[0] == '/');
}

} // verus!
