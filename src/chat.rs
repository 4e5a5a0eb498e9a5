use vstd::prelude::*;
use crate::json::Json;
use crate::reactions::{
    entries_of, first_entry, lemma_filter_membership, lemma_filter_unique, lemma_first_entry,
    lemma_first_entry_bounds, lemma_toggle_in_entry, lemma_toggled_users_twice, other_than,
    reactors, toggle_entry, toggle_in,
};
use crate::protocol::{
    decode_frame, decode_message, decoded_frame, decoded_message, FrameView, MessageData, MessageView, MsgTypes, WebSocketMessage, frame_from_json, frame_of,
    frame_text, message_from_json, message_of, reaction_entries, texts,
};

verus! {

/// A member of the roster with the address of its avatar picture.
pub struct UserProfile {
    pub name: String,
    pub avatar: String,
}

pub ghost struct ProfileView {
    pub name: Seq<char>,
    pub avatar: Seq<char>,
}

impl View for UserProfile {
    type V = ProfileView;

    open spec fn view(&self) -> ProfileView {
        ProfileView { name: self.name@, avatar: self.avatar@ }
    }
}

/// The address of the avatar picture drawn for a username.
pub open spec fn avatar_url(name: Seq<char>) -> Seq<char> {
    "https://avatars.dicebear.com/api/adventurer-neutral/"@ + name + ".svg"@
}

/// The roster built from a list of usernames, in the same order.
pub open spec fn roster(names: Seq<Seq<char>>) -> Seq<ProfileView> {
    names.map_values(|n: Seq<char>| ProfileView { name: n, avatar: avatar_url(n) })
}

pub fn avatar_for_name(name: &str) -> (r: String)
    ensures
        r@ == avatar_url(name@),
{
    let mut r = String::from_str("https://avatars.dicebear.com/api/adventurer-neutral/");
    r.append(name);
    r.append(".svg");
    r
}

/// The state of one chat session: the roster, the messages in the order they
/// arrived, and the user this session belongs to.
pub struct Chat {
    users: Vec<UserProfile>,
    messages: Vec<MessageData>,
    current_user: String,
}

pub ghost struct ChatView {
    pub users: Seq<ProfileView>,
    pub messages: Seq<MessageView>,
    pub current_user: Seq<char>,
}

impl View for Chat {
    type V = ChatView;

    closed spec fn view(&self) -> ChatView {
        ChatView {
            users: self.users@.map_values(|p: UserProfile| p@),
            messages: self.messages@.map_values(|m: MessageData| m@),
            current_user: self.current_user@,
        }
    }
}

/// The register frame that announces a user.
pub open spec fn register_frame(name: Seq<char>) -> FrameView {
    FrameView { kind: MsgTypes::Register, data_array: None, data: Some(name) }
}

/// The frame that sends a chat message.
pub open spec fn message_frame(body: Seq<char>) -> FrameView {
    FrameView { kind: MsgTypes::Message, data_array: None, data: Some(body) }
}

/// The state after a relayed message arrives as a JSON tree, and whether it
/// changed: a tree that is no chat message leaves the state as it was.
pub open spec fn message_step(s: ChatView, doc: Json) -> (ChatView, bool) {
    match message_of(doc) {
        Some(m) => (ChatView { messages: s.messages.push(m), ..s }, true),
        None => (s, false),
    }
}

/// The names a users frame lists; a frame without a list lists none.
pub open spec fn listed_names(f: FrameView) -> Seq<Seq<char>> {
    match f.data_array {
        Some(n) => n,
        None => Seq::empty(),
    }
}

/// The state after an inbound frame, and whether it changed.
pub open spec fn frame_step(s: ChatView, f: FrameView) -> (ChatView, bool) {
    match f.kind {
        MsgTypes::Users => (ChatView { users: roster(listed_names(f)), ..s }, true),
        MsgTypes::Message => match f.data {
            Some(d) => match decoded_message(d) {
                Some(m) => (ChatView { messages: s.messages.push(m), ..s }, true),
                None => (s, false),
            },
            None => (s, false),
        },
        MsgTypes::Register => (s, false),
    }
}

/// The state after an inbound JSON tree, and whether it changed.
pub open spec fn json_step(s: ChatView, doc: Json) -> (ChatView, bool) {
    match frame_of(doc) {
        Some(f) => frame_step(s, f),
        None => (s, false),
    }
}

/// The state after an inbound text, and whether it changed: a text that is no
/// frame is dropped.
pub open spec fn inbound_step(s: ChatView, text: Seq<char>) -> (ChatView, bool) {
    match decoded_frame(text) {
        Some(f) => frame_step(s, f),
        None => (s, false),
    }
}

fn roster_of(names: &Vec<String>) -> (r: Vec<UserProfile>)
    ensures
        r@.map_values(|p: UserProfile| p@) == roster(texts(names@)),
{
    let mut out: Vec<UserProfile> = Vec::new();
    let mut i: usize = 0;
    while i < names.len()
        invariant
            0 <= i <= names@.len(),
            out@.len() == i,
            forall|k: int| 0 <= k < i ==> (#[trigger] out@[k])@ == (ProfileView {
                name: names@[k]@,
                avatar: avatar_url(names@[k]@),
            }),
        decreases names@.len() - i,
    {
        let avatar = avatar_for_name(names[i].as_str());
        out.push(UserProfile { name: names[i].clone(), avatar });
        i += 1;
    }
    assert(out@.map_values(|p: UserProfile| p@) == roster(texts(names@)));
    out
}

/// The state after the session's user toggles an emoji on the message at a
/// position, and whether it changed: a position past the end changes nothing.
pub open spec fn toggle_step(s: ChatView, index: int, e: Seq<char>) -> (ChatView, bool) {
    if 0 <= index < s.messages.len() {
        let m = s.messages[index];
        let toggled = MessageView {
            reactions: Some(toggle_in(entries_of(m.reactions), e, s.current_user)),
            ..m
        };
        (ChatView { messages: s.messages.update(index, toggled), ..s }, true)
    } else {
        (s, false)
    }
}

/// The White_Space property of Unicode, the set of characters that trimming
/// removes.
pub open spec fn is_white_space(c: char) -> bool {
    let n = c as u32;
    (0x9 <= n <= 0xd) || n == 0x20 || n == 0x85 || n == 0xa0 || n == 0x1680 || (0x2000 <= n
        <= 0x200a) || n == 0x2028 || n == 0x2029 || n == 0x202f || n == 0x205f || n == 0x3000
}

/// A text that is empty once trimmed.
pub open spec fn is_blank(t: Seq<char>) -> bool {
    forall|i: int| 0 <= i < t.len() ==> is_white_space(#[trigger] t[i])
}

/// What submitting a text sends: nothing for a blank text, else the message
/// frame with the text as typed.
pub open spec fn submitted(t: Seq<char>) -> Option<Seq<char>> {
    if is_blank(t) {
        None
    } else {
        Some(frame_text(message_frame(t)))
    }
}

pub open spec fn text_of(o: Option<String>) -> Option<Seq<char>> {
    match o {
        Some(s) => Some(s@),
        None => None,
    }
}

/// The avatar drawn beside a message: that of the first roster entry with the
/// sender's name, else the one drawn for the name itself.
pub open spec fn sender_avatar(users: Seq<ProfileView>, name: Seq<char>) -> Seq<char>
    decreases users.len(),
{
    if users.len() == 0 {
        avatar_url(name)
    } else if users[0].name == name {
        users[0].avatar
    } else {
        sender_avatar(users.drop_first(), name)
    }
}

pub fn white_space(c: char) -> (r: bool)
    ensures
        r == is_white_space(c),
{
    let n = c as u32;
    (0x9 <= n && n <= 0xd) || n == 0x20 || n == 0x85 || n == 0xa0 || n == 0x1680 || (0x2000 <= n
        && n <= 0x200a) || n == 0x2028 || n == 0x2029 || n == 0x202f || n == 0x205f || n == 0x3000
}

/// Whether a text is empty once trimmed.
pub fn blank(text: &str) -> (r: bool)
    ensures
        r == is_blank(text@),
{
    let n = text.unicode_len();
    let mut i: usize = 0;
    while i < n
        invariant
            n == text@.len(),
            0 <= i <= n,
            forall|k: int| 0 <= k < i ==> is_white_space(#[trigger] text@[k]),
        decreases n - i,
    {
        if !white_space(text.get_char(i)) {
            return false;
        }
        i += 1;
    }
    true
}

/// An event for the session: an inbound text from the channel, a text the user
/// submits, or a reaction toggled on the message at a position.
pub enum Msg {
    HandleMsg(String),
    SubmitMessage(String),
    React(usize, String),
}

/// What an event leads to: whether the state changed (and a redraw is due),
/// the frame to send if any, and whether the input field is to be cleared.
pub struct Update {
    pub changed: bool,
    pub outbound: Option<String>,
    pub clear_input: bool,
}

/// The state after a run of inbound frames, applied in order.
pub open spec fn run_frames(s: ChatView, fs: Seq<FrameView>) -> ChatView
    decreases fs.len(),
{
    if fs.len() == 0 {
        s
    } else {
        frame_step(run_frames(s, fs.drop_last()), fs.last()).0
    }
}

/// After any run of frames that ends with a users frame, the roster is the
/// one that frame lists, whatever came before.
pub proof fn lemma_last_roster_wins(s: ChatView, fs: Seq<FrameView>)
    requires
        fs.len() > 0,
        fs.last().kind == MsgTypes::Users,
    ensures
        run_frames(s, fs).users == roster(listed_names(fs.last())),
{
}

/// A users frame leaves the same roster on any two states.
pub proof fn lemma_users_frame_replaces(s: ChatView, t: ChatView, f: FrameView)
    requires
        f.kind == MsgTypes::Users,
    ensures
        frame_step(s, f).0.users == frame_step(t, f).0.users,
        frame_step(s, f).0.messages == s.messages,
{
}

/// Toggling an emoji twice on the message at a position gives back the same
/// users for that emoji, and leaves the roster, the other messages and the
/// session user as they were.
pub proof fn lemma_toggle_twice_restores(s: ChatView, index: int, e: Seq<char>)
    ensures
        ({
            let twice = toggle_step(toggle_step(s, index, e).0, index, e).0;
            &&& twice.users == s.users
            &&& twice.current_user == s.current_user
            &&& twice.messages.len() == s.messages.len()
            &&& forall|k: int|
                0 <= k < s.messages.len() && k != index ==> #[trigger] twice.messages[k] == s.messages[k]
            &&& 0 <= index < s.messages.len() ==> reactors(twice.messages[index], e).to_set()
                == reactors(s.messages[index], e).to_set()
        }),
{
    if 0 <= index < s.messages.len() {
        let u = s.current_user;
        let rs = entries_of(s.messages[index].reactions);
        let once = toggle_in(rs, e, u);
        let twice = toggle_in(once, e, u);
        lemma_first_entry_bounds(rs, e);
        lemma_toggle_in_entry(rs, e, u);
        lemma_toggle_in_entry(once, e, u);
        let i = first_entry(rs, e);
        if i < rs.len() {
            lemma_toggled_users_twice(rs[i].1, u);
        } else {
            lemma_filter_membership(seq![u], u, u);
            assert(seq![u].contains(u)) by {
                assert(seq![u][0] == u);
            }
            assert forall|x: Seq<char>| !(#[trigger] twice[i].1.contains(x)) by {
                lemma_filter_membership(seq![u], u, x);
            }
            assert(twice[i].1.to_set() =~= Seq::<Seq<char>>::empty().to_set());
        }
    }
}

/// After a toggle the session user is at most once among the users of that
/// emoji on that message.
pub proof fn lemma_toggle_leaves_user_once(s: ChatView, index: int, e: Seq<char>)
    requires
        0 <= index < s.messages.len(),
    ensures
        ({
            let us = reactors(toggle_step(s, index, e).0.messages[index], e);
            forall|i: int, j: int|
                0 <= i < us.len() && 0 <= j < us.len() && us[i] == s.current_user && us[j]
                    == s.current_user ==> i == j
        }),
{
    let u = s.current_user;
    let rs = entries_of(s.messages[index].reactions);
    lemma_first_entry_bounds(rs, e);
    lemma_toggle_in_entry(rs, e, u);
    let i = first_entry(rs, e);
    if i < rs.len() {
        let before = rs[i].1;
        if before.contains(u) {
            let after = before.filter(other_than(u));
            assert forall|k: int| 0 <= k < after.len() implies after[k] != u by {
                before.lemma_filter_pred(other_than(u), k);
            }
        }
    }
}

/// A toggle keeps every emoji's users free of repeats on a message whose
/// users had none.
pub proof fn lemma_toggle_keeps_unique(s: ChatView, index: int, e: Seq<char>)
    requires
        0 <= index < s.messages.len(),
        forall|k: int|
            0 <= k < entries_of(s.messages[index].reactions).len() ==> (#[trigger] entries_of(
                s.messages[index].reactions,
            )[k]).1.no_duplicates(),
    ensures
        ({
            let rs = entries_of(toggle_step(s, index, e).0.messages[index].reactions);
            forall|k: int| 0 <= k < rs.len() ==> (#[trigger] rs[k]).1.no_duplicates()
        }),
{
    let u = s.current_user;
    let rs = entries_of(s.messages[index].reactions);
    lemma_first_entry_bounds(rs, e);
    lemma_toggle_in_entry(rs, e, u);
    let i = first_entry(rs, e);
    if i < rs.len() {
        let before = rs[i].1;
        assert(before.no_duplicates());
        if before.contains(u) {
            lemma_filter_unique(before, u);
        } else {
            assert(before.push(u).no_duplicates());
        }
    }
}

impl Chat {
    /// Opens a session for a user: no roster, no messages, and the register
    /// frame to send once.
    pub fn create(username: String) -> (r: (Chat, String))
        ensures
            r.0@ == (ChatView { users: Seq::empty(), messages: Seq::empty(), current_user: username@ }),
            r.1@ == frame_text(register_frame(username@)),
    {
        let frame = WebSocketMessage {
            message_type: MsgTypes::Register,
            data_array: None,
            data: Some(username.clone()),
        };
        let text = frame.to_json();
        let chat = Chat { users: Vec::new(), messages: Vec::new(), current_user: username };
        assert(chat@.users == Seq::<ProfileView>::empty());
        assert(chat@.messages == Seq::<MessageView>::empty());
        (chat, text)
    }

    /// Appends a relayed message given as a JSON tree; one that is malformed
    /// is dropped.
    pub fn apply_message_json(&mut self, doc: &Json) -> (changed: bool)
        ensures
            (final(self)@, changed) == message_step(old(self)@, *doc),
    {
        match message_from_json(doc) {
            Some(m) => {
                self.messages.push(m);
                assert(self@.messages == old(self)@.messages.push(m@));
                true
            },
            None => false,
        }
    }

    /// Applies one inbound frame.
    pub fn apply_frame(&mut self, frame: &WebSocketMessage) -> (changed: bool)
        ensures
            (final(self)@, changed) == frame_step(old(self)@, frame@),
    {
        match frame.message_type {
            MsgTypes::Users => {
                let names = match &frame.data_array {
                    Some(n) => roster_of(n),
                    None => Vec::new(),
                };
                self.users = names;
                assert(self@.users == frame_step(old(self)@, frame@).0.users);
                true
            },
            MsgTypes::Message => match &frame.data {
                Some(d) => match decode_message(d.as_str()) {
                    Ok(m) => {
                        self.messages.push(m);
                        assert(self@.messages == old(self)@.messages.push(m@));
                        true
                    },
                    Err(_) => false,
                },
                None => false,
            },
            MsgTypes::Register => false,
        }
    }

    /// Applies an inbound frame given as a JSON tree; one that is malformed is
    /// dropped.
    pub fn apply_json(&mut self, doc: &Json) -> (changed: bool)
        ensures
            (final(self)@, changed) == json_step(old(self)@, *doc),
    {
        match frame_from_json(doc) {
            Some(f) => self.apply_frame(&f),
            None => false,
        }
    }

    /// Applies an inbound text as it came from the channel.
    pub fn handle_msg(&mut self, text: &str) -> (changed: bool)
        ensures
            (final(self)@, changed) == inbound_step(old(self)@, text@),
    {
        match decode_frame(text) {
            Ok(f) => self.apply_frame(&f),
            Err(_) => false,
        }
    }

    /// Toggles the session user's mark for an emoji on the message at a
    /// position. The change stays local: no frame goes out.
    pub fn toggle_reaction(&mut self, index: usize, emoji: String) -> (changed: bool)
        ensures
            (final(self)@, changed) == toggle_step(old(self)@, index as int, emoji@),
    {
        if index >= self.messages.len() {
            return false;
        }
        let m = self.messages.remove(index);
        let MessageData { from, message, reactions } = m;
        let entries = match reactions {
            Some(v) => v,
            None => Vec::new(),
        };
        assert(reaction_entries(entries@) == entries_of(m@.reactions));
        let entries = toggle_entry(entries, emoji, &self.current_user);
        self.messages.insert(index, MessageData { from, message, reactions: Some(entries) });
        assert(self@.messages == toggle_step(old(self)@, index as int, emoji@).0.messages);
        true
    }

    /// The frame that submitting a text sends, if any. The state does not
    /// change: the message shows once the server relays it back.
    pub fn submit_message(&self, text: &str) -> (r: Option<String>)
        ensures
            text_of(r) == submitted(text@),
    {
        if blank(text) {
            None
        } else {
            let frame = WebSocketMessage {
                message_type: MsgTypes::Message,
                data_array: None,
                data: Some(text.to_owned()),
            };
            Some(frame.to_json())
        }
    }

    /// Handles one event.
    pub fn update(&mut self, msg: Msg) -> (r: Update)
        ensures
            match msg {
                Msg::HandleMsg(t) => (final(self)@, r.changed) == inbound_step(old(self)@, t@)
                    && r.outbound is None && !r.clear_input,
                Msg::SubmitMessage(t) => final(self)@ == old(self)@ && !r.changed
                    && text_of(r.outbound) == submitted(t@) && r.clear_input,
                Msg::React(i, e) => (final(self)@, r.changed) == toggle_step(old(self)@, i as int, e@)
                    && r.outbound is None && !r.clear_input,
            },
    {
        match msg {
            Msg::HandleMsg(t) => {
                let changed = self.handle_msg(t.as_str());
                Update { changed, outbound: None, clear_input: false }
            },
            Msg::SubmitMessage(t) => {
                let outbound = self.submit_message(t.as_str());
                Update { changed: false, outbound, clear_input: true }
            },
            Msg::React(i, e) => {
                let changed = self.toggle_reaction(i, e);
                Update { changed, outbound: None, clear_input: false }
            },
        }
    }

    /// The roster, in the order of the last users frame.
    pub fn users(&self) -> (r: &Vec<UserProfile>)
        ensures
            r@.map_values(|p: UserProfile| p@) == self@.users,
    {
        &self.users
    }

    /// The messages, in the order they arrived.
    pub fn messages(&self) -> (r: &Vec<MessageData>)
        ensures
            r@.map_values(|m: MessageData| m@) == self@.messages,
    {
        &self.messages
    }

    /// The user this session belongs to.
    pub fn current_user(&self) -> (r: &String)
        ensures
            r@ == self@.current_user,
    {
        &self.current_user
    }

    /// How many users reacted with an emoji to the message at a position; none
    /// for a position past the end.
    pub fn reaction_count(&self, index: usize, emoji: &String) -> (r: usize)
        ensures
            r == if index < self@.messages.len() {
                reactors(self@.messages[index as int], emoji@).len()
            } else {
                0
            },
    {
        if index >= self.messages.len() {
            return 0;
        }
        let m = &self.messages[index];
        assert(m@ == self@.messages[index as int]);
        match &m.reactions {
            None => 0,
            Some(rs) => {
                let ghost view = reaction_entries(rs@);
                let mut i: usize = 0;
                while i < rs.len() && !(rs[i].0 == *emoji)
                    invariant
                        0 <= i <= rs@.len(),
                        view == reaction_entries(rs@),
                        forall|k: int| 0 <= k < i ==> (#[trigger] view[k]).0 != emoji@,
                    decreases rs@.len() - i,
                {
                    i += 1;
                }
                proof {
                    lemma_first_entry(view, emoji@, i as int);
                }
                if i < rs.len() {
                    rs[i].1.len()
                } else {
                    0
                }
            },
        }
    }

    /// The avatar drawn beside a message from a sender.
    pub fn avatar_of(&self, sender: &String) -> (r: String)
        ensures
            r@ == sender_avatar(self@.users, sender@),
    {
        let mut i: usize = 0;
        assert(self@.users.len() == self.users@.len());
        assert(self@.users.subrange(0, self@.users.len() as int) == self@.users);
        while i < self.users.len()
            invariant
                0 <= i <= self.users@.len(),
                sender_avatar(self@.users, sender@) == sender_avatar(
                    self@.users.subrange(i as int, self.users@.len() as int),
                    sender@,
                ),
            decreases self.users@.len() - i,
        {
            let ghost rest = self@.users.subrange(i as int, self.users@.len() as int);
            assert(rest.drop_first() == self@.users.subrange(i + 1, self.users@.len() as int));
            if self.users[i].name == *sender {
                return self.users[i].avatar.clone();
            }
            i += 1;
        }
        avatar_for_name(sender.as_str())
    }
}

} // verus!
