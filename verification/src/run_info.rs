//! What the page of a run shows, taken from the settings that were recorded
//! at the end of the run.
//!
//! The settings are a tree of values. The caller looks up the few places
//! that matter and hands over what it found there; a place that is missing or
//! holds a value of another kind is handed over as `None`.
use crate::sorting::{lemma_name_order_total, name_le, name_le_exec, name_order};
use crate::text::{decimal, eq_ignore_ascii_case, has_prefix, push_decimal, same_ignoring_ascii_case};
use vstd::prelude::*;
use vstd::relations::*;
use vstd::string::*;

verus! {

/// The number of chronobox boards.
pub const BOARDS: usize = 4;

/// The name of a chronobox board, as the core programs write it.
pub open spec fn board_name(board: int) -> Seq<char> {
    if board == 0 {
        "cb01"@
    } else if board == 1 {
        "cb02"@
    } else if board == 2 {
        "cb03"@
    } else {
        "cb04"@
    }
}

/// The name of a chronobox board.
pub fn board(index: usize) -> (r: &'static str)
    ensures
        r@ == board_name(index as int),
{
    if index == 0 {
        "cb01"
    } else if index == 1 {
        "cb02"
    } else if index == 2 {
        "cb03"
    } else {
        "cb04"
    }
}

/// Where the settings begin in the file that holds them: at the first opening
/// brace. What stands before it is a comment of the program that wrote the
/// file.
pub fn json_start(contents: &[u8]) -> (r: Option<usize>)
    ensures
        match r {
            Some(start) => start < contents@.len() && contents@[start as int] == 0x7b && forall|
                i: int,
            |
                0 <= i < start ==> contents@[i] != 0x7b,
            None => forall|i: int| 0 <= i < contents@.len() ==> contents@[i] != 0x7b,
        },
{
    let mut start: usize = 0;
    while start < contents.len()
        invariant
            start <= contents@.len(),
            forall|i: int| 0 <= i < start ==> contents@[i] != 0x7b,
        decreases contents@.len() - start,
    {
        if contents[start] == 0x7b {
            return Some(start);
        }
        start = start + 1;
    }
    None
}

/// What was found in the settings of a run.
pub struct Odb {
    /// The number at `/Runinfo/Run number`.
    pub run_number: Option<u64>,
    /// The text at `/Runinfo/Start time binary`.
    pub start_time: Option<String>,
    /// The text at `/Runinfo/Stop time binary`.
    pub stop_time: Option<String>,
    /// The text at `/Experiment/Edit on start/Comment`.
    pub comment: Option<String>,
    /// For each board in turn, the list at `/Equipment/<board>/Settings/names`
    /// with the text of each of its members.
    pub channels: Vec<Option<Vec<Option<String>>>>,
}

/// Why the settings do not make a page.
#[derive(Clone, Copy, Debug, PartialEq, Eq)]
pub enum OdbError {
    NoRunNumber,
    RunNumberTooLarge,
    NoStartTime,
    BadStartTime,
    NoStopTime,
    BadStopTime,
    StartAfterStop,
    NoComment,
    StartTimeNotFormatted,
    StopTimeNotFormatted,
    /// The board at this place has no list of channels.
    NoChannels { board: usize },
    /// A board has more channels than there are channel numbers.
    ChannelNumberTooLarge { board: usize, index: usize },
    /// A channel has no name.
    NoChannelName { board: usize, index: usize },
}

impl OdbError {
    /// The error in words.
    pub open spec fn text(self) -> Seq<char> {
        match self {
            OdbError::NoRunNumber => "failed to get run number"@,
            OdbError::RunNumberTooLarge => "failed to convert run number to u32"@,
            OdbError::NoStartTime => "failed to get binary start time"@,
            OdbError::BadStartTime => "failed to parse start time as u64"@,
            OdbError::NoStopTime => "failed to get binary stop time"@,
            OdbError::BadStopTime => "failed to parse stop time as u64"@,
            OdbError::StartAfterStop => "start time after stop time"@,
            OdbError::NoComment => "failed to get comment"@,
            OdbError::StartTimeNotFormatted => "failed to format start time"@,
            OdbError::StopTimeNotFormatted => "failed to format stop time"@,
            OdbError::NoChannels { board } => "failed to get channels array for `"@ + board_name(
                board as int,
            ) + "`"@,
            OdbError::ChannelNumberTooLarge { board, index } =>
                "failed to convert channel number `"@ + decimal(index as nat) + "` to u8 for `"@
                    + board_name(board as int) + "`"@,
            OdbError::NoChannelName { board, index } => "failed to get channel name for `"@
                + board_name(board as int) + "` at `"@ + decimal(index as nat) + "`"@,
        }
    }

    /// The error in words.
    pub fn message(&self) -> (r: String)
        ensures
            r@ == self.text(),
    {
        match self {
            OdbError::NoRunNumber => String::from_str("failed to get run number"),
            OdbError::RunNumberTooLarge => String::from_str("failed to convert run number to u32"),
            OdbError::NoStartTime => String::from_str("failed to get binary start time"),
            OdbError::BadStartTime => String::from_str("failed to parse start time as u64"),
            OdbError::NoStopTime => String::from_str("failed to get binary stop time"),
            OdbError::BadStopTime => String::from_str("failed to parse stop time as u64"),
            OdbError::StartAfterStop => String::from_str("start time after stop time"),
            OdbError::NoComment => String::from_str("failed to get comment"),
            OdbError::StartTimeNotFormatted => String::from_str("failed to format start time"),
            OdbError::StopTimeNotFormatted => String::from_str("failed to format stop time"),
            OdbError::NoChannels { board: at } => {
                let mut r = String::from_str("failed to get channels array for `");
                r.append(board(*at));
                r.append("`");
                r
            },
            OdbError::ChannelNumberTooLarge { board: at, index } => {
                let mut r = String::from_str("failed to convert channel number `");
                push_index(&mut r, *index);
                r.append("` to u8 for `");
                r.append(board(*at));
                r.append("`");
                r
            },
            OdbError::NoChannelName { board: at, index } => {
                let mut r = String::from_str("failed to get channel name for `");
                r.append(board(*at));
                r.append("` at `");
                push_index(&mut r, *index);
                r.append("`");
                r
            },
        }
    }
}

/// Appends the decimal digits of `n` to `out`.
fn push_index(out: &mut String, n: usize)
    ensures
        final(out)@ == old(out)@ + decimal(n as nat),
    decreases n,
{
    if n >= 10 {
        push_index(out, n / 10);
    }
    push_decimal(out, (n % 10) as u32);
    assert(final(out)@ =~= old(out)@ + decimal(n as nat));
}

/// The date and time, in the form of RFC 2822, that `time` gives for
/// `timestamp` seconds since the epoch, if it gives one.
pub uninterp spec fn rfc2822(timestamp: i64) -> Option<Seq<char>>;

/// The text that `str::to_lowercase` gives for `text`.
pub uninterp spec fn lowercase(text: Seq<char>) -> Seq<char>;

/// `time::OffsetDateTime::from_unix_timestamp`, and on the date and time that
/// it gives `time::OffsetDateTime::format` with the description
/// `time::format_description::well_known::Rfc2822`; `None` where either
/// fails. The date and time are in UTC, so the text follows from
/// `timestamp` alone.
#[verifier::external_body]
fn format_rfc2822(timestamp: i64) -> (r: Option<String>)
    ensures
        match r {
            Some(text) => rfc2822(timestamp) == Some(text@),
            None => rfc2822(timestamp).is_none(),
        },
{
    let date = time::OffsetDateTime::from_unix_timestamp(timestamp).ok()?;
    date.format(&time::format_description::well_known::Rfc2822).ok()
}

/// `str::to_lowercase`.
#[verifier::external_body]
fn to_lowercase(text: &str) -> (r: String)
    ensures
        r@ == lowercase(text@),
{
    text.to_lowercase()
}

/// The number that a digit of base 16 stands for.
pub open spec fn hex_digit(c: char) -> Option<nat> {
    if '0' <= c && c <= '9' {
        Some((c as int - '0' as int) as nat)
    } else if 'a' <= c && c <= 'f' {
        Some((c as int - 'a' as int + 10) as nat)
    } else if 'A' <= c && c <= 'F' {
        Some((c as int - 'A' as int + 10) as nat)
    } else {
        None
    }
}

/// The number that a sequence of digits of base 16 stands for, if all of
/// them are such digits.
pub open spec fn hex_value(digits: Seq<char>) -> Option<nat>
    decreases digits.len(),
{
    if digits.len() == 0 {
        Some(0)
    } else {
        match (hex_value(digits.drop_last()), hex_digit(digits.last())) {
            (Some(value), Some(digit)) => Some(value * 16 + digit),
            _ => None,
        }
    }
}

/// The number that `text` stands for in base 16: a sign or none, then at
/// least one digit and nothing but digits; and the number has to fit 64 bits
/// with a sign.
pub open spec fn hex_number(text: Seq<char>) -> Option<i64> {
    let signed = text.len() > 0 && (text[0] == '-' || text[0] == '+');
    let digits = if signed {
        text.subrange(1, text.len() as int)
    } else {
        text
    };
    if digits.len() == 0 {
        None
    } else {
        match hex_value(digits) {
            None => None,
            Some(value) => if text[0] == '-' {
                if value <= 0x8000_0000_0000_0000 {
                    Some((-(value as int)) as i64)
                } else {
                    None
                }
            } else if value <= i64::MAX {
                Some(value as i64)
            } else {
                None
            },
        }
    }
}

/// Digits that do not stand for a number do not do so with more digits
/// behind them, and more digits do not make a number less.
proof fn lemma_hex_prefix(digits: Seq<char>, count: int)
    requires
        0 <= count <= digits.len(),
    ensures
        match hex_value(digits.subrange(0, count)) {
            None => hex_value(digits).is_none(),
            Some(value) => hex_value(digits) matches Some(whole) ==> whole >= value,
        },
    decreases digits.len() - count,
{
    if count < digits.len() {
        lemma_hex_prefix(digits, count + 1);
        assert(digits.subrange(0, count + 1).drop_last() =~= digits.subrange(0, count));
    } else {
        assert(digits.subrange(0, count) =~= digits);
    }
}

fn hex_digit_of(c: char) -> (r: Option<u8>)
    ensures
        match r {
            Some(digit) => hex_digit(c) == Some(digit as nat) && digit < 16,
            None => hex_digit(c).is_none(),
        },
{
    if '0' <= c && c <= '9' {
        Some(c as u8 - 48)
    } else if 'a' <= c && c <= 'f' {
        Some(c as u8 - 87)
    } else if 'A' <= c && c <= 'F' {
        Some(c as u8 - 55)
    } else {
        None
    }
}

/// Reads a number in base 16.
pub fn parse_hex(text: &str) -> (r: Option<i64>)
    ensures
        r == hex_number(text@),
{
    let len = text.unicode_len();
    if len == 0 {
        return None;
    }
    let first = text.get_char(0);
    let start: usize = if first == '-' || first == '+' {
        1
    } else {
        0
    };
    if start == len {
        return None;
    }
    let ghost digits = text@.subrange(start as int, len as int);
    assert(digits =~= if start == 1 {
        text@.subrange(1, text@.len() as int)
    } else {
        text@
    });
    let mut value: u64 = 0;
    let mut i: usize = start;
    assert(digits.subrange(0, 0) =~= Seq::<char>::empty());
    while i < len
        invariant
            start <= i <= len,
            start < len,
            len == text@.len(),
            first == text@[0],
            start == if first == '-' || first == '+' {
                1int
            } else {
                0int
            },
            digits == if start == 1 {
                text@.subrange(1, text@.len() as int)
            } else {
                text@
            },
            hex_value(digits.subrange(0, i - start)) == Some(value as nat),
            value <= 0x8000_0000_0000_0000,
        decreases len - i,
    {
        let ghost sofar = digits.subrange(0, i - start + 1);
        proof {
            assert(sofar.drop_last() =~= digits.subrange(0, i - start));
            assert(sofar.last() == digits[i - start]);
            assert(digits[i - start] == text@[i as int]);
            lemma_hex_prefix(digits, i - start + 1);
        }
        let digit = match hex_digit_of(text.get_char(i)) {
            None => {
                return None;
            },
            Some(digit) => digit,
        };
        let next: u128 = value as u128 * 16 + digit as u128;
        if next > 0x8000_0000_0000_0000 {
            return None;
        }
        value = next as u64;
        i = i + 1;
    }
    assert(digits.subrange(0, i - start) =~= digits);
    if first == '-' {
        if value == 0x8000_0000_0000_0000 {
            Some(i64::MIN)
        } else {
            Some(-(value as i64))
        }
    } else if value > i64::MAX as u64 {
        None
    } else {
        Some(value as i64)
    }
}

/// What reading a time gives.
pub enum BinaryTime {
    /// The text is missing or does not begin with `0x`.
    Missing,
    /// What follows `0x` is no number in base 16.
    Unreadable,
    /// The time, in seconds since the epoch.
    At(i64),
}

/// The time that `text` holds: `0x` and a number in base 16.
pub open spec fn binary_time(text: Option<String>) -> BinaryTime {
    match text {
        None => BinaryTime::Missing,
        Some(text) => if !"0x"@.is_prefix_of(text@) {
            BinaryTime::Missing
        } else {
            match hex_number(text@.subrange(2, text@.len() as int)) {
                None => BinaryTime::Unreadable,
                Some(time) => BinaryTime::At(time),
            }
        },
    }
}

/// Reads the time that `text` holds.
pub fn read_binary_time(text: &Option<String>) -> (r: BinaryTime)
    ensures
        r == binary_time(*text),
{
    let text = match text {
        None => {
            return BinaryTime::Missing;
        },
        Some(text) => text,
    };
    proof {
        reveal_strlit("0x");
    }
    if !has_prefix(text.as_str(), "0x") {
        return BinaryTime::Missing;
    }
    let len = text.as_str().unicode_len();
    let digits = text.as_str().substring_char(2, len);
    match parse_hex(digits) {
        None => BinaryTime::Unreadable,
        Some(time) => BinaryTime::At(time),
    }
}

/// A channel of a chronobox board.
#[derive(Debug)]
pub struct ChronoboxChannel {
    pub board: String,
    pub number: u8,
    pub description: String,
}

/// A channel of a chronobox board, as plain values.
pub struct ChannelView {
    pub board: Seq<char>,
    pub number: u8,
    pub description: Seq<char>,
}

impl View for ChronoboxChannel {
    type V = ChannelView;

    open spec fn view(&self) -> ChannelView {
        ChannelView { board: self.board@, number: self.number, description: self.description@ }
    }
}

/// The channels in `channels`, as plain values.
pub open spec fn channel_views(channels: Seq<ChronoboxChannel>) -> Seq<ChannelView> {
    Seq::new(channels.len(), |i: int| channels[i]@)
}

/// What the page of a run shows.
#[derive(Debug)]
pub struct RunInfoTemplate {
    pub run_number: u32,
    pub start_time: String,
    pub stop_time: String,
    pub operator_comment: String,
    /// The channels in the order in which the page lists them.
    pub cb_channels: Vec<ChronoboxChannel>,
}

/// How many of `channels` have the description `description`, letters read
/// without regard to case.
pub open spec fn namesakes(channels: Seq<ChronoboxChannel>, description: Seq<char>) -> nat
    decreases channels.len(),
{
    if channels.len() == 0 {
        0
    } else {
        namesakes(channels.drop_last(), description) + if same_ignoring_ascii_case(
            channels.last().description@,
            description,
        ) {
            1nat
        } else {
            0nat
        }
    }
}

impl RunInfoTemplate {
    /// The label of the channel at place `i` of the list, or `None` where the
    /// page is not to list it: there is no such channel, or it shares its
    /// description with another one, which is how unused channels look.
    pub fn cb_label_at(&self, i: &usize) -> (r: Option<String>)
        ensures
            match r {
                Some(label) => *i < self.cb_channels@.len() && label@
                    == self.cb_channels@[*i as int].description@ && namesakes(
                    self.cb_channels@,
                    label@,
                ) == 1,
                None => *i >= self.cb_channels@.len() || namesakes(
                    self.cb_channels@,
                    self.cb_channels@[*i as int].description@,
                ) > 1,
            },
    {
        if *i >= self.cb_channels.len() {
            return None;
        }
        let description = &self.cb_channels[*i].description;
        let mut count: usize = 0;
        let mut k: usize = 0;
        assert(self.cb_channels@.subrange(0, 0) =~= Seq::empty());
        while k < self.cb_channels.len()
            invariant
                k <= self.cb_channels@.len(),
                *i < self.cb_channels@.len(),
                description@ == self.cb_channels@[*i as int].description@,
                count == namesakes(self.cb_channels@.subrange(0, k as int), description@),
                count <= k,
                k > *i ==> count >= 1,
            decreases self.cb_channels@.len() - k,
        {
            assert(self.cb_channels@.subrange(0, k + 1).drop_last() =~= self.cb_channels@.subrange(
                0,
                k as int,
            ));
            if eq_ignore_ascii_case(self.cb_channels[k].description.as_str(), description.as_str()) {
                count = count + 1;
            }
            k = k + 1;
        }
        assert(self.cb_channels@.subrange(0, k as int) =~= self.cb_channels@);
        if count > 1 {
            None
        } else {
            Some(description.clone())
        }
    }
}

/// The first `count` channels of the board at place `board`, whose channels
/// have the names `names`.
pub open spec fn board_channels(board: int, names: Seq<Option<String>>, count: int) -> Seq<
    ChannelView,
> {
    Seq::new(
        count as nat,
        |i: int|
            ChannelView {
                board: board_name(board),
                number: i as u8,
                description: names[i].unwrap()@,
            },
    )
}

/// What is wrong with the first of the first `count` channels of a board
/// with which something is wrong: its number does not fit, or it has no
/// name.
pub open spec fn board_fault(board: int, names: Seq<Option<String>>, count: int) -> Option<
    OdbError,
>
    decreases count,
{
    if count <= 0 {
        None
    } else {
        match board_fault(board, names, count - 1) {
            Some(error) => Some(error),
            None => if count - 1 > u8::MAX {
                Some(
                    OdbError::ChannelNumberTooLarge {
                        board: board as usize,
                        index: (count - 1) as usize,
                    },
                )
            } else if names[count - 1].is_none() {
                Some(OdbError::NoChannelName { board: board as usize, index: (count - 1) as usize })
            } else {
                None
            },
        }
    }
}

/// What is wrong with the first of the first `count` boards with which
/// something is wrong.
pub open spec fn boards_fault(channels: Seq<Option<Vec<Option<String>>>>, count: int) -> Option<
    OdbError,
>
    decreases count,
{
    if count <= 0 {
        None
    } else {
        match boards_fault(channels, count - 1) {
            Some(error) => Some(error),
            None => if count - 1 >= channels.len() || channels[count - 1].is_none() {
                Some(OdbError::NoChannels { board: (count - 1) as usize })
            } else {
                let names = channels[count - 1].unwrap()@;
                board_fault(count - 1, names, names.len() as int)
            },
        }
    }
}

/// The channels of the first `count` boards, board by board and in each
/// board by number.
pub open spec fn boards_channels(channels: Seq<Option<Vec<Option<String>>>>, count: int) -> Seq<
    ChannelView,
>
    decreases count,
{
    if count <= 0 {
        Seq::empty()
    } else {
        let names = channels[count - 1].unwrap()@;
        boards_channels(channels, count - 1) + board_channels(
            count - 1,
            names,
            names.len() as int,
        )
    }
}

/// A channel with the text by which it is ordered.
#[derive(Debug)]
pub struct KeyedChannel {
    pub key: String,
    pub channel: ChronoboxChannel,
}

/// A channel with the text by which it is ordered, as plain values.
pub struct KeyedView {
    pub key: Seq<char>,
    pub channel: ChannelView,
}

impl View for KeyedChannel {
    type V = KeyedView;

    open spec fn view(&self) -> KeyedView {
        KeyedView { key: self.key@, channel: self.channel@ }
    }
}

/// The channels in `items` with their keys, as plain values.
pub open spec fn keyed_views(items: Seq<KeyedChannel>) -> Seq<KeyedView> {
    Seq::new(items.len(), |i: int| items[i]@)
}

/// The channels in `items`, without their keys.
pub open spec fn channels_of(items: Seq<KeyedView>) -> Seq<ChannelView> {
    Seq::new(items.len(), |i: int| items[i].channel)
}

/// `sorted` with `item` put behind the last of its members whose key does
/// not come after the key of `item`.
pub open spec fn placed(sorted: Seq<KeyedView>, item: KeyedView) -> Seq<KeyedView>
    decreases sorted.len(),
{
    if sorted.len() == 0 {
        seq![item]
    } else if name_le(sorted.last().key, item.key) {
        sorted.push(item)
    } else {
        placed(sorted.drop_last(), item).push(sorted.last())
    }
}

/// `items` ordered by their keys; items with the same key stay in the order
/// they had.
pub open spec fn ordered(items: Seq<KeyedView>) -> Seq<KeyedView>
    decreases items.len(),
{
    if items.len() == 0 {
        Seq::empty()
    } else {
        placed(ordered(items.drop_last()), items.last())
    }
}

/// By what the page orders its channels: the description in lower case.
pub open spec fn sort_key(channel: ChannelView) -> Seq<char> {
    lowercase(channel.description)
}

/// The channels, each with the key by which the page orders it.
pub open spec fn with_keys(channels: Seq<ChannelView>) -> Seq<KeyedView> {
    Seq::new(
        channels.len(),
        |i: int| KeyedView { key: sort_key(channels[i]), channel: channels[i] },
    )
}

/// The channels ordered by their descriptions in lower case; channels whose
/// descriptions are the same in lower case stay in the order they had.
pub open spec fn listed(channels: Seq<ChannelView>) -> Seq<ChannelView> {
    channels_of(ordered(with_keys(channels)))
}

/// What is wrong with the settings, if anything: the first of the things
/// that are looked at in turn.
pub open spec fn odb_fault(odb: Odb) -> Option<OdbError> {
    if odb.run_number.is_none() {
        Some(OdbError::NoRunNumber)
    } else if odb.run_number.unwrap() > u32::MAX {
        Some(OdbError::RunNumberTooLarge)
    } else if binary_time(odb.start_time) is Missing {
        Some(OdbError::NoStartTime)
    } else if binary_time(odb.start_time) is Unreadable {
        Some(OdbError::BadStartTime)
    } else if binary_time(odb.stop_time) is Missing {
        Some(OdbError::NoStopTime)
    } else if binary_time(odb.stop_time) is Unreadable {
        Some(OdbError::BadStopTime)
    } else if binary_time(odb.start_time)->At_0 >= binary_time(odb.stop_time)->At_0 {
        Some(OdbError::StartAfterStop)
    } else if odb.comment.is_none() {
        Some(OdbError::NoComment)
    } else if rfc2822(binary_time(odb.start_time)->At_0).is_none() {
        Some(OdbError::StartTimeNotFormatted)
    } else if rfc2822(binary_time(odb.stop_time)->At_0).is_none() {
        Some(OdbError::StopTimeNotFormatted)
    } else {
        boards_fault(odb.channels@, BOARDS as int)
    }
}

/// Whether `page` is the page that the settings `odb` make.
pub open spec fn shows(page: RunInfoTemplate, odb: Odb) -> bool {
    &&& page.run_number == odb.run_number.unwrap()
    &&& Some(page.start_time@) == rfc2822(binary_time(odb.start_time)->At_0)
    &&& Some(page.stop_time@) == rfc2822(binary_time(odb.stop_time)->At_0)
    &&& page.operator_comment@ == odb.comment.unwrap()@
    &&& channel_views(page.cb_channels@) == listed(boards_channels(odb.channels@, BOARDS as int))
}

impl ChronoboxChannel {
    /// A copy of this channel.
    pub fn duplicate(&self) -> (r: Self)
        ensures
            r@ == self@,
    {
        ChronoboxChannel {
            board: self.board.clone(),
            number: self.number,
            description: self.description.clone(),
        }
    }
}

/// Puts `item` at its place in `sorted`: behind the last member whose key
/// does not come after the key of `item`.
pub fn place(sorted: &mut Vec<KeyedChannel>, item: KeyedChannel)
    ensures
        keyed_views(final(sorted)@) == placed(keyed_views(old(sorted)@), item@),
{
    let ghost before = keyed_views(sorted@);
    let mut pos: usize = sorted.len();
    assert(before.subrange(0, pos as int) =~= before);
    assert(before.subrange(pos as int, before.len() as int) =~= Seq::empty());
    assert(placed(before, item@) =~= placed(before.subrange(0, pos as int), item@)
        + before.subrange(pos as int, before.len() as int));
    while pos > 0 && !name_le_exec(sorted[pos - 1].key.as_str(), item.key.as_str())
        invariant
            pos <= sorted@.len(),
            before == keyed_views(sorted@),
            placed(before, item@) == placed(before.subrange(0, pos as int), item@)
                + before.subrange(pos as int, before.len() as int),
        decreases pos,
    {
        proof {
            let head = before.subrange(0, pos as int);
            assert(head.last() == before[pos - 1]);
            assert(head.drop_last() =~= before.subrange(0, pos - 1));
            assert(placed(head, item@) == placed(head.drop_last(), item@).push(head.last()));
            assert(placed(head.drop_last(), item@).push(head.last()) + before.subrange(
                pos as int,
                before.len() as int,
            ) =~= placed(head.drop_last(), item@) + before.subrange(
                pos - 1,
                before.len() as int,
            ));
        }
        pos = pos - 1;
    }
    proof {
        let head = before.subrange(0, pos as int);
        if pos > 0 {
            assert(head.last() == before[pos - 1]);
        }
        assert(placed(head, item@) == head.push(item@));
    }
    sorted.insert(pos, item);
    assert(keyed_views(sorted@) =~= placed(before, item@));
}

/// The channels of `items` ordered by the keys that they come with; channels
/// with the same key stay in the order they had.
pub fn order_by_key(items: &Vec<KeyedChannel>) -> (r: Vec<ChronoboxChannel>)
    ensures
        channel_views(r@) == channels_of(ordered(keyed_views(items@))),
{
    let mut sorted: Vec<KeyedChannel> = Vec::new();
    let mut i: usize = 0;
    assert(keyed_views(items@).subrange(0, 0) =~= Seq::empty());
    assert(keyed_views(sorted@) =~= Seq::empty());
    while i < items.len()
        invariant
            i <= items@.len(),
            keyed_views(sorted@) == ordered(keyed_views(items@).subrange(0, i as int)),
        decreases items@.len() - i,
    {
        let item = KeyedChannel { key: items[i].key.clone(), channel: items[i].channel.duplicate() };
        proof {
            let more = keyed_views(items@).subrange(0, i + 1);
            assert(more.last() == item@);
            assert(more.drop_last() =~= keyed_views(items@).subrange(0, i as int));
        }
        place(&mut sorted, item);
        i = i + 1;
    }
    assert(keyed_views(items@).subrange(0, i as int) =~= keyed_views(items@));
    let mut r: Vec<ChronoboxChannel> = Vec::new();
    let mut k: usize = 0;
    while k < sorted.len()
        invariant
            k <= sorted@.len(),
            r@.len() == k,
            forall|j: int| 0 <= j < k ==> (#[trigger] r@[j])@ == sorted@[j]@.channel,
        decreases sorted@.len() - k,
    {
        r.push(sorted[k].channel.duplicate());
        k = k + 1;
    }
    assert(channel_views(r@) =~= channels_of(keyed_views(sorted@)));
    r
}

impl RunInfoTemplate {
    /// Makes the page of a run from what was found in its settings, or says
    /// what is missing or wrong there. The run number has to fit 32 bits; the
    /// times of the start and of the stop have to be there, readable and in
    /// this order; the comment of the operator has to be there; and each of
    /// the boards has to have a list of channels, each channel with a name and
    /// a number below 256.
    pub fn try_from_odb(odb: &Odb) -> (r: Result<RunInfoTemplate, OdbError>)
        ensures
            match r {
                Ok(page) => odb_fault(*odb).is_none() && shows(page, *odb),
                Err(error) => odb_fault(*odb) == Some(error),
            },
    {
        let run_number: u32 = match odb.run_number {
            None => {
                return Err(OdbError::NoRunNumber);
            },
            Some(n) => {
                if n > u32::MAX as u64 {
                    return Err(OdbError::RunNumberTooLarge);
                }
                n as u32
            },
        };
        let start = match read_binary_time(&odb.start_time) {
            BinaryTime::Missing => {
                return Err(OdbError::NoStartTime);
            },
            BinaryTime::Unreadable => {
                return Err(OdbError::BadStartTime);
            },
            BinaryTime::At(time) => time,
        };
        let stop = match read_binary_time(&odb.stop_time) {
            BinaryTime::Missing => {
                return Err(OdbError::NoStopTime);
            },
            BinaryTime::Unreadable => {
                return Err(OdbError::BadStopTime);
            },
            BinaryTime::At(time) => time,
        };
        if start >= stop {
            return Err(OdbError::StartAfterStop);
        }
        let operator_comment = match &odb.comment {
            None => {
                return Err(OdbError::NoComment);
            },
            Some(comment) => comment.clone(),
        };
        let start_time = match format_rfc2822(start) {
            None => {
                return Err(OdbError::StartTimeNotFormatted);
            },
            Some(text) => text,
        };
        let stop_time = match format_rfc2822(stop) {
            None => {
                return Err(OdbError::StopTimeNotFormatted);
            },
            Some(text) => text,
        };
        let mut keyed: Vec<KeyedChannel> = Vec::new();
        let mut at: usize = 0;
        assert(keyed_views(keyed@) =~= with_keys(boards_channels(odb.channels@, 0)));
        while at < BOARDS
            invariant
                at <= BOARDS,
                odb_fault(*odb) == boards_fault(odb.channels@, BOARDS as int),
                boards_fault(odb.channels@, at as int).is_none(),
                keyed_views(keyed@) == with_keys(boards_channels(odb.channels@, at as int)),
            decreases BOARDS - at,
        {
            if at >= odb.channels.len() {
                proof {
                    lemma_boards_fault_stays(odb.channels@, at + 1, BOARDS as int);
                }
                return Err(OdbError::NoChannels { board: at });
            }
            let names = match &odb.channels[at] {
                None => {
                    proof {
                        lemma_boards_fault_stays(odb.channels@, at + 1, BOARDS as int);
                    }
                    return Err(OdbError::NoChannels { board: at });
                },
                Some(names) => names,
            };
            let ghost done = boards_channels(odb.channels@, at as int);
            let mut index: usize = 0;
            assert(done + board_channels(at as int, names@, 0) =~= done);
            while index < names.len()
                invariant
                    index <= names@.len(),
                    at < BOARDS,
                    odb_fault(*odb) == boards_fault(odb.channels@, BOARDS as int),
                    at < odb.channels@.len(),
                    odb.channels@[at as int] == Some(*names),
                    done == boards_channels(odb.channels@, at as int),
                    boards_fault(odb.channels@, at as int).is_none(),
                    board_fault(at as int, names@, index as int).is_none(),
                    keyed_views(keyed@) == with_keys(
                        done + board_channels(at as int, names@, index as int),
                    ),
                decreases names@.len() - index,
            {
                if index > u8::MAX as usize {
                    proof {
                        lemma_fault_stays(at as int, names@, index + 1, names@.len() as int);
                        lemma_boards_fault_stays(odb.channels@, at + 1, BOARDS as int);
                    }
                    return Err(OdbError::ChannelNumberTooLarge { board: at, index });
                }
                let description = match &names[index] {
                    None => {
                        proof {
                            lemma_fault_stays(at as int, names@, index + 1, names@.len() as int);
                            lemma_boards_fault_stays(odb.channels@, at + 1, BOARDS as int);
                        }
                        return Err(OdbError::NoChannelName { board: at, index });
                    },
                    Some(name) => name.clone(),
                };
                assert(board_fault(at as int, names@, index + 1).is_none());
                let key = to_lowercase(description.as_str());
                let channel = ChronoboxChannel {
                    board: String::from_str(board(at)),
                    number: index as u8,
                    description,
                };
                let ghost sofar = done + board_channels(at as int, names@, index as int);
                let ghost more = done + board_channels(at as int, names@, index + 1);
                let ghost before = keyed_views(keyed@);
                keyed.push(KeyedChannel { key, channel });
                proof {
                    assert(more.last() == channel@);
                    assert(more.drop_last() =~= sofar);
                    assert(keyed_views(keyed@) =~= before.push(
                        KeyedView { key: sort_key(channel@), channel: channel@ },
                    ));
                    assert(keyed_views(keyed@) =~= with_keys(more));
                }
                index = index + 1;
            }
            at = at + 1;
        }
        let cb_channels = order_by_key(&keyed);
        Ok(RunInfoTemplate { run_number, start_time, stop_time, operator_comment, cb_channels })
    }
}

/// What is wrong with the first boards is wrong with all of them.
proof fn lemma_boards_fault_stays(
    channels: Seq<Option<Vec<Option<String>>>>,
    count: int,
    more: int,
)
    requires
        0 <= count <= more,
        boards_fault(channels, count).is_some(),
    ensures
        boards_fault(channels, more) == boards_fault(channels, count),
    decreases more - count,
{
    if count < more {
        lemma_boards_fault_stays(channels, count, more - 1);
    }
}

/// What is wrong with the first channels of a board is wrong with the board.
proof fn lemma_fault_stays(board: int, names: Seq<Option<String>>, count: int, more: int)
    requires
        0 <= count <= more,
        board_fault(board, names, count).is_some(),
    ensures
        board_fault(board, names, more) == board_fault(board, names, count),
    decreases more - count,
{
    if count < more {
        lemma_fault_stays(board, names, count, more - 1);
    }
}

/// Whether `items` are in the order of their keys.
pub open spec fn in_order(items: Seq<KeyedView>) -> bool {
    forall|i: int, j: int|
        0 <= i < j < items.len() ==> name_le((#[trigger] items[i]).key, (#[trigger] items[j]).key)
}

proof fn lemma_placed(sorted: Seq<KeyedView>, item: KeyedView)
    requires
        in_order(sorted),
    ensures
        in_order(placed(sorted, item)),
        placed(sorted, item).len() == sorted.len() + 1,
        placed(sorted, item).to_multiset() == sorted.to_multiset().insert(item),
        channels_of(placed(sorted, item)).to_multiset() == channels_of(
            sorted,
        ).to_multiset().insert(item.channel),
        forall|k: int|
            0 <= k < placed(sorted, item).len() ==> (#[trigger] placed(sorted, item)[k]) == item
                || sorted.contains(placed(sorted, item)[k]),
    decreases sorted.len(),
{
    broadcast use vstd::seq_lib::group_to_multiset_ensures;

    lemma_name_order_total();
    let order = name_order();
    let after = placed(sorted, item);
    if sorted.len() == 0 {
        assert(sorted.to_multiset() =~= Seq::<KeyedView>::empty().to_multiset());
        assert(after =~= sorted.push(item));
        assert(channels_of(after) =~= channels_of(sorted).push(item.channel));
    } else if name_le(sorted.last().key, item.key) {
        assert(channels_of(after) =~= channels_of(sorted).push(item.channel));
        assert forall|i: int, j: int| 0 <= i < j < after.len() implies name_le(
            (#[trigger] after[i]).key,
            (#[trigger] after[j]).key,
        ) by {
            if j == sorted.len() && i < sorted.len() - 1 {
                assert(order(sorted[i].key, sorted.last().key));
                assert(order(sorted.last().key, item.key));
                assert(order(sorted[i].key, item.key));
            }
        }
        assert forall|k: int| 0 <= k < after.len() implies (#[trigger] after[k]) == item
            || sorted.contains(after[k]) by {
            if k < sorted.len() {
                assert(sorted[k] == after[k]);
            }
        }
    } else {
        let head = sorted.drop_last();
        let last = sorted.last();
        let inner = placed(head, item);
        assert(in_order(head)) by {
            assert forall|i: int, j: int| 0 <= i < j < head.len() implies name_le(
                (#[trigger] head[i]).key,
                (#[trigger] head[j]).key,
            ) by {
                assert(head[i] == sorted[i] && head[j] == sorted[j]);
            }
        }
        lemma_placed(head, item);
        assert(sorted =~= head.push(last));
        assert(channels_of(sorted) =~= channels_of(head).push(last.channel));
        assert(channels_of(after) =~= channels_of(inner).push(last.channel));
        assert(order(last.key, item.key) || order(item.key, last.key));
        assert forall|i: int, j: int| 0 <= i < j < after.len() implies name_le(
            (#[trigger] after[i]).key,
            (#[trigger] after[j]).key,
        ) by {
            if j == inner.len() {
                if inner[i] != item {
                    let k = choose|k: int| 0 <= k < head.len() && head[k] == inner[i];
                    assert(sorted[k] == inner[i]);
                }
            } else {
                assert(after[i] == inner[i] && after[j] == inner[j]);
            }
        }
        assert forall|k: int| 0 <= k < after.len() implies (#[trigger] after[k]) == item
            || sorted.contains(after[k]) by {
            if k < inner.len() {
                if inner[k] != item {
                    let at = choose|at: int| 0 <= at < head.len() && head[at] == inner[k];
                    assert(sorted[at] == after[k]);
                }
            } else {
                assert(sorted[sorted.len() - 1] == after[k]);
            }
        }
        assert(after.to_multiset() =~= sorted.to_multiset().insert(item));
        assert(channels_of(after).to_multiset() =~= channels_of(sorted).to_multiset().insert(
            item.channel,
        ));
    }
}

/// Ordering by key gives the same items, each as often as it was there, with
/// their keys in ascending order.
pub proof fn lemma_ordered(items: Seq<KeyedView>)
    ensures
        in_order(ordered(items)),
        ordered(items).len() == items.len(),
        ordered(items).to_multiset() == items.to_multiset(),
        channels_of(ordered(items)).to_multiset() == channels_of(items).to_multiset(),
        forall|k: int|
            0 <= k < ordered(items).len() ==> items.contains(#[trigger] ordered(items)[k]),
    decreases items.len(),
{
    broadcast use vstd::seq_lib::group_to_multiset_ensures;

    if items.len() == 0 {
        assert(items =~= Seq::empty());
        assert(channels_of(items) =~= channels_of(ordered(items)));
    } else {
        let head = items.drop_last();
        lemma_ordered(head);
        lemma_placed(ordered(head), items.last());
        assert(items =~= head.push(items.last()));
        assert(channels_of(items) =~= channels_of(head).push(items.last().channel));
        assert forall|k: int| 0 <= k < ordered(items).len() implies items.contains(
            #[trigger] ordered(items)[k],
        ) by {
            let found = ordered(items)[k];
            if found == items.last() {
                assert(items[items.len() - 1] == found);
            } else {
                assert(ordered(head).contains(found));
                let at = choose|at: int| 0 <= at < ordered(head).len() && ordered(head)[at] == found;
                assert(head.contains(ordered(head)[at]));
                let from = choose|from: int| 0 <= from < head.len() && head[from] == found;
                assert(items[from] == found);
            }
        }
    }
}

/// The list of the page holds the channels that it was made of, each as
/// often as it was there, in the order of their descriptions in lower case.
pub proof fn lemma_listed_is_ordered(channels: Seq<ChannelView>)
    ensures
        forall|i: int, j: int|
            0 <= i < j < listed(channels).len() ==> name_le(
                sort_key(#[trigger] listed(channels)[i]),
                sort_key(#[trigger] listed(channels)[j]),
            ),
        listed(channels).len() == channels.len(),
        listed(channels).to_multiset() == channels.to_multiset(),
{
    let items = with_keys(channels);
    lemma_ordered(items);
    assert(channels_of(items) =~= channels);
    assert forall|i: int, j: int| 0 <= i < j < listed(channels).len() implies name_le(
        sort_key(#[trigger] listed(channels)[i]),
        sort_key(#[trigger] listed(channels)[j]),
    ) by {
        let a = ordered(items)[i];
        let b = ordered(items)[j];
        assert(items.contains(a));
        assert(items.contains(b));
        assert(name_le(a.key, b.key));
    }
}

} // verus!
