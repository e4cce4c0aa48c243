//! What `avdmanager` and `adb` report: the virtual devices that exist and the emulators that run.
use crate::text;
use vstd::hash_map::StringHashMap;
use vstd::prelude::*;
use vstd::slice::slice_subrange;

verus! {

/// A discovered Android Virtual Device from `avdmanager list avd`.
#[derive(Clone, Debug)]
pub struct AvdInfo {
    pub name: String,
    pub target: String,
    pub abi: String,
    /// Where the device's files lie; empty where the listing gives no path.
    pub path: String,
}

/// An Android Virtual Device as text.
#[verifier::ext_equal]
pub struct AvdView {
    pub name: Seq<char>,
    pub target: Seq<char>,
    pub abi: Seq<char>,
    pub path: Seq<char>,
}

impl View for AvdInfo {
    type V = AvdView;

    open spec fn view(&self) -> AvdView {
        AvdView { name: self.name@, target: self.target@, abi: self.abi@, path: self.path@ }
    }
}

/// Runtime status of an AVD as reported by `adb devices`.
#[derive(Clone, Debug, PartialEq, Eq)]
pub enum EmulatorStatus {
    Running { serial: String },
    Stopped,
}

/// The status of each AVD, by name.
pub type StatusMap = StringHashMap<EmulatorStatus>;

/// The views of a list of devices.
pub open spec fn avd_views(avds: Seq<AvdInfo>) -> Seq<AvdView> {
    avds.map_values(|avd: AvdInfo| avd@)
}

/// The views of a list of strings.
pub open spec fn string_views(list: Seq<String>) -> Seq<Seq<char>> {
    list.map_values(|s: String| s@)
}

/// No item or one.
pub open spec fn optional_item<T>(item: Option<T>) -> Seq<T> {
    match item {
        Some(item) => seq![item],
        None => Seq::empty(),
    }
}

// ---------------------------------------------------------------------------------------------
// `avdmanager list avd`
// ---------------------------------------------------------------------------------------------

/// Whether a line holds nothing but white space. Such a line ends a block.
pub open spec fn is_blank(line: Seq<char>) -> bool {
    text::trim(line).len() == 0
}

/// The key and the value of a `key: value` line.
pub open spec fn entry(line: Seq<char>) -> Option<(Seq<char>, Seq<char>)> {
    match text::split_once(text::trim(line), ':') {
        Some((key, value)) => Some((text::trim(key), text::trim(value))),
        None => None,
    }
}

/// The value that a block gives for `key`: the one in the last line with that key.
pub open spec fn field(block: Seq<Seq<char>>, key: Seq<char>) -> Option<Seq<char>>
    decreases block.len(),
{
    if block.len() == 0 {
        None
    } else {
        match entry(block.last()) {
            Some((k, value)) if k == key => Some(value),
            _ => field(block.drop_last(), key),
        }
    }
}

/// The value of a field that may be missing.
pub open spec fn field_or(value: Option<Seq<char>>, default: Seq<char>) -> Seq<char> {
    match value {
        Some(value) => value,
        None => default,
    }
}

/// The device that a set of fields describes: none without a name.
pub open spec fn avd_of_fields(fields: spec_fn(Seq<char>) -> Option<Seq<char>>) -> Option<AvdView> {
    match fields("Name"@) {
        Some(name) => Some(
            AvdView {
                name,
                target: field_or(fields("Based on"@), "Unknown"@),
                abi: field_or(fields("Tag/ABI"@), "Unknown"@),
                path: field_or(fields("Path"@), Seq::empty()),
            },
        ),
        None => None,
    }
}

/// The device that a block of lines describes.
pub open spec fn avd_of_block(block: Seq<Seq<char>>) -> Option<AvdView> {
    avd_of_fields(|key: Seq<char>| field(block, key))
}

/// The lines behind the last blank one.
pub open spec fn last_block(lines: Seq<Seq<char>>) -> Seq<Seq<char>>
    decreases lines.len(),
{
    if lines.len() == 0 || is_blank(lines.last()) {
        Seq::empty()
    } else {
        last_block(lines.drop_last()).push(lines.last())
    }
}

/// The devices of the blocks that a blank line ends, in order.
pub open spec fn ended_avds(lines: Seq<Seq<char>>) -> Seq<AvdView>
    decreases lines.len(),
{
    if lines.len() == 0 {
        Seq::empty()
    } else {
        let before = lines.drop_last();
        if is_blank(lines.last()) {
            ended_avds(before) + optional_item(avd_of_block(last_block(before)))
        } else {
            ended_avds(before)
        }
    }
}

/// The devices that a listing describes: one for each block that has a name, in order.
pub open spec fn listed_avds(lines: Seq<Seq<char>>) -> Seq<AvdView> {
    ended_avds(lines) + optional_item(avd_of_block(last_block(lines)))
}

/// The text that a map of fields holds for `key`.
pub open spec fn map_field(map: Map<Seq<char>, String>, key: Seq<char>) -> Option<Seq<char>> {
    if map.contains_key(key) {
        Some(map[key]@)
    } else {
        None
    }
}

/// The text of a field, or `default` where the field is missing.
fn field_text(current: &StringHashMap<String>, key: &str, default: &str) -> (value: String)
    ensures
        value@ == field_or(map_field(current@, key@), default@),
{
    match current.get(key) {
        Some(value) => value.clone(),
        None => default.to_string(),
    }
}

/// Ends a block: appends the device that the fields describe, if they name one, and clears them.
pub fn flush_avd_block(current: &mut StringHashMap<String>, avds: &mut Vec<AvdInfo>)
    ensures
        final(current)@ == Map::<Seq<char>, String>::empty(),
        avd_views(final(avds)@) == avd_views(old(avds)@) + optional_item(
            avd_of_fields(|key: Seq<char>| map_field(old(current)@, key)),
        ),
{
    if let Some(name) = current.get("Name") {
        let avd = AvdInfo {
            name: name.clone(),
            target: field_text(current, "Based on", "Unknown"),
            abi: field_text(current, "Tag/ABI", "Unknown"),
            path: field_text(current, "Path", ""),
        };
        proof {
            reveal_strlit("");
            assert(""@ =~= Seq::<char>::empty());
        }
        avds.push(avd);
    }
    current.clear();
}

/// Parses the text that `avdmanager list avd` prints.
pub fn parse_avd_list(listing: &str) -> (avds: Vec<AvdInfo>)
    ensures
        avd_views(avds@) == listed_avds(text::lines(listing@)),
{
    let chars = text::chars_of(listing);
    let lines = text::split_lines(chars.as_slice());
    let ghost all = text::lines(listing@);
    let mut avds: Vec<AvdInfo> = Vec::new();
    let mut current: StringHashMap<String> = StringHashMap::new();
    let mut i: usize = 0;
    while i < lines.len()
        invariant
            i <= lines@.len(),
            text::views(lines@) == all,
            avd_views(avds@) == ended_avds(all.take(i as int)),
            forall|key: Seq<char>| #[trigger]
                map_field(current@, key) == field(last_block(all.take(i as int)), key),
        decreases lines@.len() - i,
    {
        let ghost done = all.take(i as int);
        let ghost more = all.take(i + 1);
        let ghost earlier = current@;
        let trimmed = text::trimmed(lines[i]);
        assert(more.drop_last() =~= done);
        if trimmed.len() == 0 {
            flush_avd_block(&mut current, &mut avds);
        } else {
            let n: usize = text::position_of(trimmed, ':');
            proof {
                text::lemma_find_char(trimmed@, ':');
                assert(last_block(more).drop_last() =~= last_block(done));
            }
            if n < trimmed.len() {
                let key = slice_subrange(trimmed, 0, n);
                let value = slice_subrange(trimmed, n + 1, trimmed.len());
                let key_text = text::string_of(text::trimmed(key));
                let value_text = text::string_of(text::trimmed(value));
                current.insert(key_text, value_text);
            }
        }
        assert forall|key: Seq<char>| #[trigger]
            map_field(current@, key) == field(last_block(more), key) by {
            assert(map_field(earlier, key) == field(last_block(done), key));
        }
        i += 1;
    }
    assert(all.take(i as int) =~= all);
    flush_avd_block(&mut current, &mut avds);
    avds
}

/// The arguments with which `avdmanager` lists the devices.
pub fn avd_list_args() -> (args: Vec<String>)
    ensures
        string_views(args@) == seq!["list"@, "avd"@],
{
    vec!["list".to_string(), "avd".to_string()]
}

/// The devices in what `avdmanager list avd` wrote to its standard output.
pub fn list_avds(stdout: &[u8]) -> (avds: Vec<AvdInfo>)
    ensures
        avd_views(avds@) == listed_avds(text::lines(text::utf8_lossy(stdout@))),
        text::decodes_utf8(stdout@),
{
    let listing = text::decode_lossy(stdout);
    parse_avd_list(listing.as_str())
}

/// A blank line separates two listings: what follows it is read on its own, and the devices come
/// out one listing after the other.
pub proof fn lemma_blank_line_separates(
    first: Seq<Seq<char>>,
    blank: Seq<char>,
    second: Seq<Seq<char>>,
)
    requires
        is_blank(blank),
    ensures
        listed_avds(first.push(blank) + second) == listed_avds(first) + listed_avds(second),
{
    lemma_blocks_after_blank(first, blank, second);
}

proof fn lemma_blocks_after_blank(
    first: Seq<Seq<char>>,
    blank: Seq<char>,
    second: Seq<Seq<char>>,
)
    requires
        is_blank(blank),
    ensures
        last_block(first.push(blank) + second) == last_block(second),
        ended_avds(first.push(blank) + second) == listed_avds(first) + ended_avds(second),
    decreases second.len(),
{
    let whole = first.push(blank) + second;
    if second.len() == 0 {
        assert(whole.drop_last() =~= first);
    } else {
        let init = second.drop_last();
        lemma_blocks_after_blank(first, blank, init);
        assert(whole.drop_last() =~= first.push(blank) + init);
    }
}

/// The line that gives `value` for `key`.
pub open spec fn field_line(key: Seq<char>, value: Seq<char>) -> Seq<char> {
    key + ": "@ + value
}

/// The lines that describe a device, with the blank line that ends them.
pub open spec fn avd_lines(avd: AvdView) -> Seq<Seq<char>> {
    seq![
        field_line("Name"@, avd.name),
        field_line("Path"@, avd.path),
        field_line("Based on"@, avd.target),
        field_line("Tag/ABI"@, avd.abi),
        Seq::empty(),
    ]
}

/// The lines that describe some devices, one after the other.
pub open spec fn listing_of(avds: Seq<AvdView>) -> Seq<Seq<char>>
    decreases avds.len(),
{
    if avds.len() == 0 {
        Seq::empty()
    } else {
        listing_of(avds.drop_last()) + avd_lines(avds.last())
    }
}

/// Whether `value` can stand in a listing: it is one line without white space at its ends.
pub open spec fn is_field_value(value: Seq<char>) -> bool {
    &&& text::trim(value) == value
    &&& forall|i: int| 0 <= i < value.len() ==> #[trigger] value[i] != '\n'
}

/// Whether a device can be listed.
pub open spec fn is_listable(avd: AvdView) -> bool {
    &&& is_field_value(avd.name)
    &&& is_field_value(avd.target)
    &&& is_field_value(avd.abi)
    &&& is_field_value(avd.path)
}

/// A `key: value` line is read as that key and that value.
proof fn lemma_field_line(key: Seq<char>, value: Seq<char>)
    requires
        key.len() > 0,
        !text::is_white(key[0]),
        !text::is_white(key.last()),
        forall|i: int| 0 <= i < key.len() ==> #[trigger] key[i] != ':' && key[i] != '\n',
        is_field_value(value),
    ensures
        entry(field_line(key, value)) == Some((key, value)),
        !is_blank(field_line(key, value)),
        text::is_line(field_line(key, value)),
{
    reveal_strlit(": ");
    let line = field_line(key, value);
    let n = key.len() as int;
    text::lemma_trim_start_is(line, 0);
    let t = text::trim(line);
    if value.len() > 0 {
        text::lemma_trimmed_ends(value);
        text::lemma_trim_keeps(line);
    } else {
        text::lemma_trim_end_is(line, n + 1);
    }
    assert(forall|i: int| 0 <= i < n ==> t[i] == key[i]);
    text::lemma_find_char_unique(t, ':', n);
    text::lemma_trim_keeps(key);
    let tail = t.skip(n + 1);
    if value.len() > 0 {
        text::lemma_trim_start_is(tail, 1);
        text::lemma_trim_start_is(value, 0);
    } else {
        text::lemma_trim_start_is(tail, 0);
    }
}

proof fn lemma_avd_lines(avd: AvdView)
    requires
        is_listable(avd),
    ensures
        listed_avds(avd_lines(avd)) == seq![avd],
        ended_avds(avd_lines(avd)) == seq![avd],
        forall|i: int| 0 <= i < avd_lines(avd).len() ==> text::is_line(#[trigger] avd_lines(avd)[i]),
{
    reveal_strlit("Name");
    reveal_strlit("Path");
    reveal_strlit("Based on");
    reveal_strlit("Tag/ABI");
    let name = field_line("Name"@, avd.name);
    let path = field_line("Path"@, avd.path);
    let target = field_line("Based on"@, avd.target);
    let abi = field_line("Tag/ABI"@, avd.abi);
    lemma_field_line("Name"@, avd.name);
    lemma_field_line("Path"@, avd.path);
    lemma_field_line("Based on"@, avd.target);
    lemma_field_line("Tag/ABI"@, avd.abi);
    let b0 = Seq::<Seq<char>>::empty();
    let b1 = b0.push(name);
    let b2 = b1.push(path);
    let b3 = b2.push(target);
    let b4 = b3.push(abi);
    text::lemma_trim_start_is(Seq::empty(), 0);
    assert(b1.drop_last() =~= b0);
    assert(b2.drop_last() =~= b1);
    assert(b3.drop_last() =~= b2);
    assert(b4.drop_last() =~= b3);
    assert(avd_lines(avd).drop_last() =~= b4);
    assert(last_block(b0) =~= b0);
    assert(ended_avds(b0) =~= Seq::empty());
    assert(last_block(b1) =~= b1);
    assert(last_block(b2) =~= b2);
    assert(last_block(b3) =~= b3);
    assert(ended_avds(b1) =~= Seq::empty());
    assert(ended_avds(b2) =~= Seq::empty());
    assert(ended_avds(b3) =~= Seq::empty());
    assert(ended_avds(b4) =~= Seq::empty());
}

/// A listing gives back the devices that were written into it, all of them and in their order.
pub proof fn lemma_listing_round_trip(avds: Seq<AvdView>)
    requires
        forall|i: int| 0 <= i < avds.len() ==> is_listable(#[trigger] avds[i]),
    ensures
        listed_avds(text::lines(text::unlines(listing_of(avds)))) == avds,
{
    lemma_listing_lines(avds);
    text::lemma_lines_of_unlines(listing_of(avds));
}

proof fn lemma_listing_lines(avds: Seq<AvdView>)
    requires
        forall|i: int| 0 <= i < avds.len() ==> is_listable(#[trigger] avds[i]),
    ensures
        listed_avds(listing_of(avds)) == avds,
        last_block(listing_of(avds)) == Seq::<Seq<char>>::empty(),
        forall|i: int|
            0 <= i < listing_of(avds).len() ==> text::is_line(#[trigger] listing_of(avds)[i]),
        avds.len() > 0 ==> listing_of(avds).len() > 0 && is_blank(listing_of(avds).last()),
    decreases avds.len(),
{
    if avds.len() > 0 {
        let init = avds.drop_last();
        let avd = avds.last();
        lemma_listing_lines(init);
        lemma_avd_lines(avd);
        text::lemma_trim_start_is(Seq::empty(), 0);
        if init.len() > 0 {
            let before = listing_of(init);
            let first = before.drop_last();
            assert(before =~= first.push(before.last()));
            lemma_blank_line_separates(first, before.last(), avd_lines(avd));
            assert(listed_avds(before) =~= listed_avds(first));
        }
    }
}

/// A line with a colon is read as the key before the first colon and the value behind it, whatever
/// white space stands around either.
pub proof fn lemma_entry_of_line(
    indent: Seq<char>,
    key: Seq<char>,
    gap: Seq<char>,
    space: Seq<char>,
    value: Seq<char>,
    tail: Seq<char>,
)
    requires
        text::is_white_run(indent),
        text::is_white_run(gap),
        text::is_white_run(space),
        text::is_white_run(tail),
        text::has_solid_ends(key),
        text::has_solid_ends(value),
        forall|i: int| 0 <= i < key.len() ==> #[trigger] key[i] != ':',
    ensures
        entry(indent + key + gap + seq![':'] + space + value + tail) == Some((key, value)),
        !is_blank(indent + key + gap + seq![':'] + space + value + tail),
{
    let none = Seq::<char>::empty();
    let line = indent + key + gap + seq![':'] + space + value + tail;
    let (lead, left) = if key.len() == 0 {
        (indent + gap, none)
    } else {
        (indent, key + gap)
    };
    let (right, trail) = if value.len() == 0 {
        (none, space + tail)
    } else {
        (space + value, tail)
    };
    let core = left + seq![':'] + right;
    assert(line =~= lead + core + trail);
    if key.len() > 0 {
        assert(core[0] == key[0]);
    }
    if value.len() > 0 {
        assert(core[core.len() - 1] == value[value.len() - 1]);
    }
    text::lemma_trim_of_padded(lead, core, trail);
    assert forall|i: int| 0 <= i < left.len() implies #[trigger] left[i] != ':' by {
        if i < key.len() {
            assert(left[i] == key[i]);
        } else {
            assert(left[i] == gap[i - key.len()]);
        }
    }
    text::lemma_split_at_the_first(left, ':', right);
    text::lemma_trim_of_padded(none, key, if key.len() == 0 {
        none
    } else {
        gap
    });
    assert(left =~= none + key + (if key.len() == 0 {
        none
    } else {
        gap
    }));
    text::lemma_trim_of_padded(if value.len() == 0 {
        none
    } else {
        space
    }, value, none);
    assert(right =~= (if value.len() == 0 {
        none
    } else {
        space
    }) + value + none);
}

/// A line without a colon holds no key.
pub proof fn lemma_no_entry_without_colon(line: Seq<char>)
    requires
        forall|i: int| 0 <= i < line.len() ==> #[trigger] line[i] != ':',
    ensures
        entry(line) is None,
{
    let t = text::trim(line);
    text::lemma_trim_is_within(line);
    text::lemma_split_at_the_first(t, ':', Seq::empty());
}

/// Whether a line gives a value for `key`.
pub open spec fn has_key(line: Seq<char>, key: Seq<char>) -> bool {
    entry(line) matches Some((k, _)) && k == key
}

/// Whether a block shows `value` for `key`: it is the value in the last line with that key, or the
/// stand-in where no line has the key.
pub open spec fn shows(
    block: Seq<Seq<char>>,
    key: Seq<char>,
    value: Seq<char>,
    stand_in: Seq<char>,
) -> bool {
    ||| exists|i: int|
        {
            &&& 0 <= i < block.len()
            &&& #[trigger] entry(block[i]) == Some((key, value))
            &&& forall|j: int| i < j < block.len() ==> !has_key(#[trigger] block[j], key)
        }
    ||| value == stand_in && forall|j: int| 0 <= j < block.len() ==> !has_key(#[trigger] block[j], key)
}

/// A block describes a device when, and only when, one of its lines has the key `Name`, whatever
/// else the block holds. Each part of the device is the value in the last line with its own key: the
/// name under `Name`, the target under `Based on`, the ABI under `Tag/ABI`, the path under `Path`. A
/// target or an ABI that no line gives is `Unknown`; such a path is empty.
pub proof fn lemma_device_of_block(block: Seq<Seq<char>>)
    ensures
        avd_of_block(block) is Some <==> (exists|i: int|
            0 <= i < block.len() && has_key(#[trigger] block[i], "Name"@)),
        avd_of_block(block) matches Some(avd) ==> {
            &&& shows(block, "Name"@, avd.name, avd.name)
            &&& shows(block, "Based on"@, avd.target, "Unknown"@)
            &&& shows(block, "Tag/ABI"@, avd.abi, "Unknown"@)
            &&& shows(block, "Path"@, avd.path, Seq::empty())
        },
{
    lemma_field_of_block(block, "Name"@);
    lemma_field_of_block(block, "Based on"@);
    lemma_field_of_block(block, "Tag/ABI"@);
    lemma_field_of_block(block, "Path"@);
}

/// A block has a field when, and only when, one of its lines has the key; the last such line gives
/// the value.
proof fn lemma_field_of_block(block: Seq<Seq<char>>, key: Seq<char>)
    ensures
        field(block, key) is Some <==> (exists|i: int|
            0 <= i < block.len() && has_key(#[trigger] block[i], key)),
        field(block, key) matches Some(value) ==> (exists|i: int|
            {
                &&& 0 <= i < block.len()
                &&& #[trigger] entry(block[i]) == Some((key, value))
                &&& forall|j: int| i < j < block.len() ==> !has_key(#[trigger] block[j], key)
            }),
    decreases block.len(),
{
    if block.len() > 0 {
        let init = block.drop_last();
        let last = block.len() - 1;
        lemma_field_of_block(init, key);
        if has_key(block[last], key) {
            assert(entry(block[last]) == Some((key, field(block, key)->0)));
        } else {
            assert(field(block, key) == field(init, key));
            if field(init, key) is Some {
                let value = field(init, key)->0;
                let i = choose|i: int|
                    {
                        &&& 0 <= i < init.len()
                        &&& #[trigger] entry(init[i]) == Some((key, value))
                        &&& forall|j: int| i < j < init.len() ==> !has_key(#[trigger] init[j], key)
                    };
                assert(entry(block[i]) == Some((key, value)));
                assert(has_key(block[i], key));
                assert forall|j: int| i < j < block.len() implies !has_key(
                    #[trigger] block[j],
                    key,
                ) by {
                    if j < last {
                        assert(block[j] == init[j]);
                    }
                }
            } else {
                assert forall|i: int| 0 <= i < block.len() implies !has_key(
                    #[trigger] block[i],
                    key,
                ) by {
                    if i < last {
                        assert(block[i] == init[i]);
                    }
                }
            }
        }
    }
}

/// A line that is not blank and has none of the four keys of a device changes nothing, wherever it
/// is inserted into a listing.
pub proof fn lemma_other_lines_change_nothing(lines: Seq<Seq<char>>, at: int, line: Seq<char>)
    requires
        0 <= at <= lines.len(),
        !is_blank(line),
        !has_key(line, "Name"@),
        !has_key(line, "Based on"@),
        !has_key(line, "Tag/ABI"@),
        !has_key(line, "Path"@),
    ensures
        listed_avds(lines.insert(at, line)) == listed_avds(lines),
{
    lemma_other_line_in_blocks(lines, at, line);
}

proof fn lemma_other_line_in_blocks(lines: Seq<Seq<char>>, at: int, line: Seq<char>)
    requires
        0 <= at <= lines.len(),
        !is_blank(line),
        !has_key(line, "Name"@),
        !has_key(line, "Based on"@),
        !has_key(line, "Tag/ABI"@),
        !has_key(line, "Path"@),
    ensures
        ended_avds(lines.insert(at, line)) == ended_avds(lines),
        avd_of_block(last_block(lines.insert(at, line))) == avd_of_block(last_block(lines)),
        forall|key: Seq<char>| !has_key(line, key) ==> #[trigger] field(
            last_block(lines.insert(at, line)),
            key,
        ) == field(last_block(lines), key),
    decreases lines.len(),
{
    let longer = lines.insert(at, line);
    if at == lines.len() {
        assert(longer.drop_last() =~= lines);
        assert(last_block(longer).drop_last() =~= last_block(lines));
    } else {
        let init = lines.drop_last();
        lemma_other_line_in_blocks(init, at, line);
        assert(longer.drop_last() =~= init.insert(at, line));
        assert(longer.last() == lines.last());
        if !is_blank(lines.last()) {
            assert(last_block(longer).drop_last() =~= last_block(init.insert(at, line)));
            assert(last_block(lines).drop_last() =~= last_block(init));
            assert(last_block(longer).last() == last_block(lines).last());
        }
        assert forall|key: Seq<char>| !has_key(line, key) implies #[trigger] field(
            last_block(longer),
            key,
        ) == field(last_block(lines), key) by {
            if !is_blank(lines.last()) {
                assert(field(last_block(init.insert(at, line)), key) == field(last_block(init), key));
            }
        }
    }
    assert(field(last_block(longer), "Name"@) == field(last_block(lines), "Name"@));
    assert(field(last_block(longer), "Based on"@) == field(last_block(lines), "Based on"@));
    assert(field(last_block(longer), "Tag/ABI"@) == field(last_block(lines), "Tag/ABI"@));
    assert(field(last_block(longer), "Path"@) == field(last_block(lines), "Path"@));
}

/// A listing without blank lines is a single block.
pub proof fn lemma_listing_of_one_block(lines: Seq<Seq<char>>)
    requires
        forall|i: int| 0 <= i < lines.len() ==> !is_blank(#[trigger] lines[i]),
    ensures
        listed_avds(lines) == match avd_of_block(lines) {
            Some(avd) => seq![avd],
            None => Seq::empty(),
        },
{
    lemma_one_block(lines);
}

proof fn lemma_one_block(lines: Seq<Seq<char>>)
    requires
        forall|i: int| 0 <= i < lines.len() ==> !is_blank(#[trigger] lines[i]),
    ensures
        last_block(lines) == lines,
        ended_avds(lines) == Seq::<AvdView>::empty(),
    decreases lines.len(),
{
    if lines.len() > 0 {
        lemma_one_block(lines.drop_last());
    }
}

/// A line is blank when, and only when, it holds nothing but white space.
pub proof fn lemma_blank_lines(line: Seq<char>)
    ensures
        is_blank(line) <==> text::is_white_run(line),
{
    if text::is_white_run(line) {
        text::lemma_trim_of_padded(line, Seq::empty(), Seq::empty());
        assert(line + Seq::empty() + Seq::empty() =~= line);
    }
    text::lemma_trim_is_within(line);
}

/// Devices and strings are viewed item by item, and a device field by field.
pub proof fn lemma_views_item_by_item(avds: Seq<AvdInfo>, list: Seq<String>)
    ensures
        avd_views(avds).len() == avds.len(),
        forall|i: int|
            0 <= i < avds.len() ==> {
                &&& #[trigger] avd_views(avds)[i].name == avds[i].name@
                &&& avd_views(avds)[i].target == avds[i].target@
                &&& avd_views(avds)[i].abi == avds[i].abi@
                &&& avd_views(avds)[i].path == avds[i].path@
            },
        string_views(list).len() == list.len(),
        forall|i: int| 0 <= i < list.len() ==> #[trigger] string_views(list)[i] == list[i]@,
{
}

// ---------------------------------------------------------------------------------------------
// `adb devices` and `adb -s <serial> emu avd name`
// ---------------------------------------------------------------------------------------------

/// The serial in a line of `adb devices`, where the line stands for an emulator that is up: its
/// first word is the serial of an emulator and its second is `device`.
pub open spec fn device_serial(line: Seq<char>) -> Option<Seq<char>> {
    let words = text::words(line);
    if words.len() >= 2 && words[1] == "device"@ && "emulator-"@.is_prefix_of(words[0]) {
        Some(words[0])
    } else {
        None
    }
}

/// The serials in a run of lines, in order.
pub open spec fn serials_in(lines: Seq<Seq<char>>) -> Seq<Seq<char>>
    decreases lines.len(),
{
    if lines.len() == 0 {
        Seq::empty()
    } else {
        serials_in(lines.drop_last()) + optional_item(device_serial(lines.last()))
    }
}

/// The serials that `adb devices` lists behind its headline.
pub open spec fn listed_serials(lines: Seq<Seq<char>>) -> Seq<Seq<char>> {
    if lines.len() == 0 {
        Seq::empty()
    } else {
        serials_in(lines.skip(1))
    }
}

/// The AVD name in an emulator's answer: its first line, trimmed, unless that is empty.
pub open spec fn reported_name(answer: Seq<char>) -> Option<Seq<char>> {
    let lines = text::lines(answer);
    if lines.len() > 0 && !is_blank(lines[0]) {
        Some(text::trim(lines[0]))
    } else {
        None
    }
}

/// The name that the `i`-th answer reports; an emulator that gave no answer reports none.
pub open spec fn name_at(answers: Seq<Option<Seq<char>>>, i: int) -> Option<Seq<char>> {
    if 0 <= i < answers.len() {
        match answers[i] {
            Some(answer) => reported_name(answer),
            None => None,
        }
    } else {
        None
    }
}

/// Which serial each AVD runs under once the answers of all `serials` are in.
pub open spec fn running_map(
    serials: Seq<Seq<char>>,
    answers: Seq<Option<Seq<char>>>,
) -> Map<Seq<char>, Seq<char>>
    decreases serials.len(),
{
    if serials.len() == 0 {
        Map::empty()
    } else {
        let before = running_map(serials.drop_last(), answers);
        match name_at(answers, serials.len() - 1) {
            Some(name) => before.insert(name, serials.last()),
            None => before,
        }
    }
}

/// The serials of the AVDs that a map of statuses marks as running.
pub open spec fn running_serials(
    statuses: Map<Seq<char>, EmulatorStatus>,
) -> Map<Seq<char>, Seq<char>> {
    Map::new(
        |name: Seq<char>| statuses.contains_key(name) && statuses[name] is Running,
        |name: Seq<char>| statuses[name]->serial@,
    )
}

/// Answers as text.
pub open spec fn answer_views(answers: Seq<Option<String>>) -> Seq<Option<Seq<char>>> {
    answers.map_values(
        |answer: Option<String>|
            match answer {
                Some(answer) => Some(answer@),
                None => None,
            },
    )
}

/// Answers as they are decoded.
pub open spec fn decoded_answers(answers: Seq<Option<Vec<u8>>>) -> Seq<Option<Seq<char>>> {
    answers.map_values(
        |answer: Option<Vec<u8>>|
            match answer {
                Some(answer) => Some(text::utf8_lossy(answer@)),
                None => None,
            },
    )
}

/// An AVD runs under the serial of the last emulator that reported its name, and no AVD that
/// nobody reported runs.
pub proof fn lemma_last_report_wins(
    serials: Seq<Seq<char>>,
    answers: Seq<Option<Seq<char>>>,
    name: Seq<char>,
)
    ensures
        running_map(serials, answers).contains_key(name) <==> (exists|i: int|
            0 <= i < serials.len() && #[trigger] name_at(answers, i) == Some(name)),
        forall|i: int|
            0 <= i < serials.len() && #[trigger] name_at(answers, i) == Some(name) && (forall|j: int|
                i < j < serials.len() ==> #[trigger] name_at(answers, j) != Some(name))
                ==> running_map(serials, answers)[name] == serials[i],
    decreases serials.len(),
{
    if serials.len() > 0 {
        lemma_last_report_wins(serials.drop_last(), answers, name);
    }
}

/// Every serial that a listing gives is the serial of an emulator.
pub proof fn lemma_serials_are_emulators(lines: Seq<Seq<char>>)
    ensures
        forall|i: int|
            0 <= i < serials_in(lines).len() ==> "emulator-"@.is_prefix_of(
                #[trigger] serials_in(lines)[i],
            ),
    decreases lines.len(),
{
    if lines.len() > 0 {
        let earlier = serials_in(lines.drop_last());
        lemma_serials_are_emulators(lines.drop_last());
        assert forall|i: int|
            0 <= i < serials_in(lines).len() implies "emulator-"@.is_prefix_of(
            #[trigger] serials_in(lines)[i],
        ) by {
            if i < earlier.len() {
                assert(serials_in(lines)[i] == earlier[i]);
            }
        }
    }
}

/// The line with which `adb devices` lists a serial in a state.
pub open spec fn device_line(serial: Seq<char>, state: Seq<char>) -> Seq<char> {
    serial + seq!['\t'] + state
}

/// Whether `s` is a single word.
pub open spec fn is_word(s: Seq<char>) -> bool {
    s.len() > 0 && forall|i: int| 0 <= i < s.len() ==> !text::is_white(#[trigger] s[i])
}

/// A listed device counts as a running emulator when, and only when, its state is `device` and its
/// serial is that of an emulator.
pub proof fn lemma_device_line(serial: Seq<char>, state: Seq<char>)
    requires
        is_word(serial),
        is_word(state),
    ensures
        device_serial(device_line(serial, state)) == if state == "device"@
            && "emulator-"@.is_prefix_of(serial) {
            Some(serial)
        } else {
            None
        },
{
    let line = device_line(serial, state);
    let n = serial.len() as int;
    text::lemma_trim_start_is(line, 0);
    text::lemma_word_len_is(line, n);
    assert(line.take(n) =~= serial);
    let rest = line.skip(n);
    text::lemma_trim_start_is(rest, 1);
    assert(rest.skip(1) =~= state);
    text::lemma_word_len_is(state, state.len() as int);
    assert(state.take(state.len() as int) =~= state);
    assert(text::words(rest) == seq![state] + text::words(state.skip(state.len() as int)));
}

/// A line stands for a running emulator when, and only when, its second word is `device` and its
/// first word is the serial of an emulator. White space around the words, and what follows the
/// second, make no difference.
pub proof fn lemma_serial_of_line(
    indent: Seq<char>,
    serial: Seq<char>,
    gap: Seq<char>,
    state: Seq<char>,
    tail: Seq<char>,
)
    requires
        text::is_white_run(indent),
        text::is_white_run(gap),
        gap.len() > 0,
        is_word(serial),
        is_word(state),
        tail.len() > 0 ==> text::is_white(tail[0]),
    ensures
        device_serial(indent + serial + gap + state + tail) == if state == "device"@
            && "emulator-"@.is_prefix_of(serial) {
            Some(serial)
        } else {
            None
        },
{
    let rest = gap + state + tail;
    text::lemma_first_word(gap, state, tail);
    text::lemma_first_word(indent, serial, rest);
    let line = indent + serial + gap + state + tail;
    assert(line =~= indent + serial + rest);
    assert(text::words(line) == seq![serial] + (seq![state] + text::words(tail)));
    assert(text::words(line)[0] == serial && text::words(line)[1] == state);
}

/// A line of fewer than two words stands for no emulator.
pub proof fn lemma_short_lines_have_no_serial(indent: Seq<char>, word: Seq<char>, tail: Seq<char>)
    requires
        text::is_white_run(indent),
        text::is_white_run(tail),
        is_word(word),
    ensures
        device_serial(indent) is None,
        device_serial(indent + word + tail) is None,
{
    text::lemma_no_words(indent);
    text::lemma_no_words(tail);
    text::lemma_first_word(indent, word, tail);
}

/// No serial is lost, added or moved: the serials in two runs of lines are those in the first run
/// followed by those in the second, and a single line gives its own serial if it has one.
pub proof fn lemma_serials_of_adjacent_lines(first: Seq<Seq<char>>, second: Seq<Seq<char>>, line: Seq<char>)
    ensures
        serials_in(first + second) == serials_in(first) + serials_in(second),
        serials_in(seq![line]) == match device_serial(line) {
            Some(serial) => seq![serial],
            None => Seq::empty(),
        },
        serials_in(Seq::empty()) == Seq::<Seq<char>>::empty(),
    decreases second.len(),
{
    let whole = first + second;
    if second.len() == 0 {
        assert(whole =~= first);
        assert(serials_in(first) + serials_in(second) =~= serials_in(first));
    } else {
        lemma_serials_of_adjacent_lines(first, second.drop_last(), line);
        assert(whole.drop_last() =~= first + second.drop_last());
        assert(serials_in(whole) =~= serials_in(first) + serials_in(second));
    }
    let single = seq![line];
    assert(single.drop_last() =~= Seq::empty());
    assert(serials_in(single.drop_last()) =~= Seq::empty());
    assert(single.last() == line);
    assert(serials_in(single) =~= optional_item(device_serial(line)));
}

/// The headline of a listing is passed over, whatever it says, and nothing else is.
pub proof fn lemma_headline_is_passed_over(headline: Seq<char>, lines: Seq<Seq<char>>)
    ensures
        listed_serials(seq![headline] + lines) == serials_in(lines),
        listed_serials(Seq::empty()) == Seq::<Seq<char>>::empty(),
{
    assert((seq![headline] + lines).skip(1) =~= lines);
}

/// A device as `adb devices` lists it.
#[verifier::ext_equal]
pub struct DeviceView {
    pub serial: Seq<char>,
    pub state: Seq<char>,
}

/// The lines with which `adb devices` lists some devices.
pub open spec fn device_lines(devices: Seq<DeviceView>) -> Seq<Seq<char>> {
    devices.map_values(|device: DeviceView| device.serial + seq!['\t'] + device.state)
}

/// The serials of the emulators among `devices` that are up, in order.
pub open spec fn up_emulators(devices: Seq<DeviceView>) -> Seq<Seq<char>> {
    devices.filter(
        |device: DeviceView|
            device.state == "device"@ && "emulator-"@.is_prefix_of(device.serial),
    ).map_values(|device: DeviceView| device.serial)
}

/// A listing of devices gives back the serials of the emulators that are up, all of them and in
/// their order, and no other.
pub proof fn lemma_device_listing_round_trip(headline: Seq<char>, devices: Seq<DeviceView>)
    requires
        text::is_line(headline),
        forall|i: int|
            0 <= i < devices.len() ==> is_word(#[trigger] devices[i].serial) && is_word(
                devices[i].state,
            ),
    ensures
        listed_serials(
            text::lines(text::unlines(seq![headline] + device_lines(devices))),
        ) == up_emulators(devices),
{
    let listing = seq![headline] + device_lines(devices);
    assert forall|i: int| 0 <= i < listing.len() implies text::is_line(#[trigger] listing[i]) by {
        if i > 0 {
            let device = devices[i - 1];
            assert(is_word(devices[i - 1].serial));
            let line = device.serial + seq!['\t'] + device.state;
            assert(listing[i] == line);
            assert forall|j: int| 0 <= j < line.len() implies #[trigger] line[j] != '\n' by {
                if j < device.serial.len() {
                    assert(!text::is_white(device.serial[j]));
                } else if j > device.serial.len() {
                    assert(!text::is_white(device.state[j - device.serial.len() - 1]));
                }
            }
            assert(!text::is_white(device.state[device.state.len() - 1]));
        }
    }
    text::lemma_lines_of_unlines(listing);
    lemma_headline_is_passed_over(headline, device_lines(devices));
    lemma_serials_of_device_lines(devices);
}

proof fn lemma_serials_of_device_lines(devices: Seq<DeviceView>)
    requires
        forall|i: int|
            0 <= i < devices.len() ==> is_word(#[trigger] devices[i].serial) && is_word(
                devices[i].state,
            ),
    ensures
        serials_in(device_lines(devices)) == up_emulators(devices),
    decreases devices.len(),
{
    reveal(Seq::filter);
    if devices.len() > 0 {
        let init = devices.drop_last();
        let device = devices.last();
        assert(is_word(devices[devices.len() - 1].serial));
        assert forall|i: int| 0 <= i < init.len() implies is_word(#[trigger] init[i].serial)
            && is_word(init[i].state) by {
            assert(is_word(devices[i].serial));
        }
        lemma_serials_of_device_lines(init);
        lemma_device_line(device.serial, device.state);
        assert(device_lines(devices).drop_last() =~= device_lines(init));
        assert(device_lines(devices).last() =~= device_line(device.serial, device.state));
        assert(serials_in(device_lines(devices)) =~= up_emulators(devices));
    }
}

/// An emulator reports what stands in the first line of its answer, without the white space around
/// it, whatever follows that line.
pub proof fn lemma_name_in_answer(
    before: Seq<char>,
    name: Seq<char>,
    after: Seq<char>,
    rest: Seq<char>,
)
    requires
        text::is_white_run(before),
        text::is_white_run(after),
        text::has_solid_ends(name),
        forall|i: int| 0 <= i < before.len() ==> #[trigger] before[i] != '\n',
        forall|i: int| 0 <= i < name.len() ==> #[trigger] name[i] != '\n',
        forall|i: int| 0 <= i < after.len() ==> #[trigger] after[i] != '\n',
    ensures
        name.len() > 0 ==> reported_name(before + name + after + seq!['\n'] + rest) == Some(name),
        name.len() > 0 ==> reported_name(before + name + after) == Some(name),
        name.len() == 0 ==> reported_name(before + name + after + seq!['\n'] + rest) is None,
        name.len() == 0 ==> reported_name(before + name + after) is None,
        reported_name(Seq::empty()) is None,
{
    let line = before + name + after;
    assert forall|i: int| 0 <= i < line.len() implies #[trigger] line[i] != '\n' by {
        if i < before.len() {
            assert(line[i] == before[i]);
        } else if i < before.len() + name.len() {
            assert(line[i] == name[i - before.len()]);
        } else {
            assert(line[i] == after[i - before.len() - name.len()]);
        }
    }
    text::lemma_trim_of_padded(before, name, after);
    text::lemma_first_line(line, rest);
    text::lemma_first_line(Seq::empty(), rest);
    if line.len() > 0 && line.last() == '\r' {
        let short = line.drop_last();
        assert(line + seq!['\n'] + rest =~= short + seq!['\r', '\n'] + rest);
        text::lemma_first_line(short, rest);
        if after.len() > 0 {
            text::lemma_trim_of_padded(before, name, after.drop_last());
            assert(short =~= before + name + after.drop_last());
        } else {
            assert(name.len() == 0) by {
                if name.len() > 0 {
                    assert(line.last() == name[name.len() - 1]);
                }
            }
            text::lemma_trim_of_padded(before.drop_last(), name, after);
            assert(short =~= before.drop_last() + name + after);
        }
    }
}

/// An AVD runs when, and only when, one of the listed emulators answered with its name; it runs
/// under the serial of the last that did.
pub proof fn lemma_running_avds(
    serials: Seq<Seq<char>>,
    answers: Seq<Option<Seq<char>>>,
    name: Seq<char>,
)
    requires
        serials.len() == answers.len(),
    ensures
        running_map(serials, answers).contains_key(name) <==> (exists|i: int|
            0 <= i < answers.len() && answered(#[trigger] answers[i], name)),
        forall|i: int|
            0 <= i < answers.len() && answered(#[trigger] answers[i], name) && (forall|j: int|
                i < j < answers.len() ==> !answered(#[trigger] answers[j], name))
                ==> running_map(serials, answers)[name] == serials[i],
{
    lemma_last_report_wins(serials, answers, name);
    if running_map(serials, answers).contains_key(name) {
        let i = choose|i: int|
            0 <= i < serials.len() && #[trigger] name_at(answers, i) == Some(name);
        assert(answered(answers[i], name));
    }
    if exists|i: int| 0 <= i < answers.len() && answered(#[trigger] answers[i], name) {
        let i = choose|i: int| 0 <= i < answers.len() && answered(#[trigger] answers[i], name);
        assert(name_at(answers, i) == Some(name));
    }
    assert forall|i: int|
        0 <= i < answers.len() && answered(#[trigger] answers[i], name) && (forall|j: int|
            i < j < answers.len() ==> !answered(#[trigger] answers[j], name)) implies running_map(
        serials,
        answers,
    )[name] == serials[i] by {
        assert(name_at(answers, i) == Some(name));
        assert forall|j: int| i < j < serials.len() implies #[trigger] name_at(answers, j) != Some(
            name,
        ) by {
            assert(!answered(answers[j], name));
        }
    }
}

/// Whether an emulator answered with `name`.
pub open spec fn answered(answer: Option<Seq<char>>, name: Seq<char>) -> bool {
    answer matches Some(answer) && reported_name(answer) == Some(name)
}

/// The running AVDs in a map of statuses are those with the status `Running`, each under its serial.
pub proof fn lemma_running_serials(statuses: Map<Seq<char>, EmulatorStatus>, name: Seq<char>)
    ensures
        running_serials(statuses).contains_key(name) <==> statuses.contains_key(name)
            && statuses[name] !is Stopped,
        running_serials(statuses).contains_key(name) ==> (statuses[name] matches
            EmulatorStatus::Running { serial } ==> running_serials(statuses)[name] == serial@),
{
}

/// Answers are viewed one by one; one that did not come stays away.
pub proof fn lemma_answers_one_by_one(texts: Seq<Option<String>>, bytes: Seq<Option<Vec<u8>>>)
    ensures
        answer_views(texts).len() == texts.len(),
        forall|i: int|
            0 <= i < texts.len() ==> (#[trigger] answer_views(texts)[i] is Some <==> texts[i] is Some)
                && (texts[i] matches Some(answer) ==> answer_views(texts)[i] == Some(answer@)),
        decoded_answers(bytes).len() == bytes.len(),
        forall|i: int|
            0 <= i < bytes.len() ==> (#[trigger] decoded_answers(bytes)[i] is Some <==> bytes[i] is
                Some) && (bytes[i] matches Some(answer) ==> decoded_answers(bytes)[i] == Some(
                text::utf8_lossy(answer@),
            )),
{
}

/// Whether `s` starts with `prefix`.
fn starts_with(s: &[char], prefix: &str) -> (starts: bool)
    ensures
        starts == prefix@.is_prefix_of(s@),
{
    let prefix_chars = text::chars_of(prefix);
    if s.len() < prefix_chars.len() {
        return false;
    }
    text::same_chars(slice_subrange(s, 0, prefix_chars.len()), prefix_chars.as_slice())
}

/// The serials of the emulators that are up, in the text that `adb devices` prints.
pub fn parse_serials(listing: &str) -> (serials: Vec<String>)
    ensures
        string_views(serials@) == listed_serials(text::lines(listing@)),
{
    let chars = text::chars_of(listing);
    let lines = text::split_lines(chars.as_slice());
    let ghost all = text::lines(listing@);
    let mut serials: Vec<String> = Vec::new();
    if lines.len() == 0 {
        return serials;
    }
    let ghost rest = all.skip(1);
    let mut i: usize = 1;
    while i < lines.len()
        invariant
            1 <= i <= lines@.len(),
            text::views(lines@) == all,
            rest == all.skip(1),
            string_views(serials@) == serials_in(rest.take(i - 1)),
        decreases lines@.len() - i,
    {
        let ghost more = rest.take(i as int);
        assert(more.drop_last() =~= rest.take(i - 1));
        let words = text::split_words(lines[i]);
        if words.len() >= 2 {
            if text::spells(words[1], "device") && starts_with(words[0], "emulator-") {
                let serial = text::string_of(words[0]);
                serials.push(serial);
            }
        }
        i += 1;
    }
    assert(rest.take(i - 1) =~= rest);
    serials
}

/// The serials of the emulators that are up, in what `adb devices` wrote to its standard output.
/// Each of them is to be asked for its AVD name.
pub fn list_serials(devices_stdout: &[u8]) -> (serials: Vec<String>)
    ensures
        string_views(serials@) == listed_serials(text::lines(text::utf8_lossy(devices_stdout@))),
        text::decodes_utf8(devices_stdout@),
{
    let listing = text::decode_lossy(devices_stdout);
    parse_serials(listing.as_str())
}

/// The arguments with which `adb` lists the devices that are up.
pub fn devices_args() -> (args: Vec<String>)
    ensures
        string_views(args@) == seq!["devices"@],
{
    vec!["devices".to_string()]
}

/// The arguments with which `adb` asks the emulator `serial` for the name of its AVD.
pub fn name_query(serial: &str) -> (args: Vec<String>)
    ensures
        string_views(args@) == seq!["-s"@, serial@, "emu"@, "avd"@, "name"@],
{
    vec![
        "-s".to_string(),
        serial.to_string(),
        "emu".to_string(),
        "avd".to_string(),
        "name".to_string(),
    ]
}

/// The AVD name in an emulator's answer.
pub fn parse_avd_name(answer: &str) -> (name: Option<String>)
    ensures
        match name {
            Some(name) => reported_name(answer@) == Some(name@),
            None => reported_name(answer@) is None,
        },
{
    let chars = text::chars_of(answer);
    let lines = text::split_lines(chars.as_slice());
    if lines.len() == 0 {
        return None;
    }
    let name = text::trimmed(lines[0]);
    if name.len() == 0 {
        None
    } else {
        Some(text::string_of(name))
    }
}

/// The status of each AVD that one of the emulators `serials` reported: `answers` holds, in the
/// order of the serials, what each replied, or `None` where the query failed.
pub fn running_emulators(serials: &Vec<String>, answers: &Vec<Option<String>>) -> (statuses: StatusMap)
    ensures
        forall|name: Seq<char>| #[trigger]
            statuses@.contains_key(name) ==> statuses@[name] is Running,
        running_serials(statuses@) == running_map(string_views(serials@), answer_views(answers@)),
{
    let mut statuses: StatusMap = StringHashMap::new();
    let ghost all = string_views(serials@);
    let ghost replies = answer_views(answers@);
    let mut i: usize = 0;
    while i < serials.len()
        invariant
            i <= serials@.len(),
            all == string_views(serials@),
            replies == answer_views(answers@),
            forall|name: Seq<char>| #[trigger]
                statuses@.contains_key(name) ==> statuses@[name] is Running,
            running_serials(statuses@) == running_map(all.take(i as int), replies),
        decreases serials@.len() - i,
    {
        let ghost more = all.take(i + 1);
        assert(more.drop_last() =~= all.take(i as int));
        if i < answers.len() {
            if let Some(answer) = &answers[i] {
                if let Some(name) = parse_avd_name(answer.as_str()) {
                    let serial = serials[i].clone();
                    statuses.insert(name, EmulatorStatus::Running { serial });
                }
            }
        }
        i += 1;
    }
    assert(all.take(i as int) =~= all);
    statuses
}

/// The status of each running AVD. `devices_stdout` is what `adb devices` printed; `answers` holds,
/// in the order of [`list_serials`], what each emulator printed when it was asked for its AVD name,
/// or `None` where the query failed.
pub fn list_running_emulators(devices_stdout: &[u8], answers: &Vec<Option<Vec<u8>>>) -> (statuses: StatusMap)
    ensures
        forall|name: Seq<char>| #[trigger]
            statuses@.contains_key(name) ==> statuses@[name] is Running,
        running_serials(statuses@) == running_map(
            listed_serials(text::lines(text::utf8_lossy(devices_stdout@))),
            decoded_answers(answers@),
        ),
        text::decodes_utf8(devices_stdout@),
        forall|i: int|
            0 <= i < answers@.len() ==> (#[trigger] answers@[i] matches Some(answer)
                ==> text::decodes_utf8(answer@)),
{
    let serials = list_serials(devices_stdout);
    let mut replies: Vec<Option<String>> = Vec::new();
    let mut i: usize = 0;
    while i < answers.len()
        invariant
            i <= answers@.len(),
            answer_views(replies@) == decoded_answers(answers@.take(i as int)),
            forall|j: int|
                0 <= j < i ==> (#[trigger] answers@[j] matches Some(answer) ==> text::decodes_utf8(
                    answer@,
                )),
        decreases answers@.len() - i,
    {
        let reply = match &answers[i] {
            Some(bytes) => Some(text::decode_lossy(bytes.as_slice())),
            None => None,
        };
        replies.push(reply);
        proof {
            let more = answers@.take(i + 1);
            assert(decoded_answers(more) =~= decoded_answers(answers@.take(i as int)).push(
                decoded_answers(more)[i as int],
            ));
        }
        i += 1;
    }
    assert(answers@.take(i as int) =~= answers@);
    running_emulators(&serials, &replies)
}

// ---------------------------------------------------------------------------------------------
// Ports
// ---------------------------------------------------------------------------------------------

/// How far the gRPC port lies above the console port.
pub const GRPC_PORT_OFFSET: u16 = 3000;

/// The console port in the serial of an emulator.
pub open spec fn serial_console_port(serial: Seq<char>) -> Option<u16> {
    if "emulator-"@.is_prefix_of(serial) {
        text::parse_u16(serial.skip("emulator-"@.len() as int))
    } else {
        None
    }
}

/// Whether the gRPC port of `serial`, where it has one, is a port number.
pub open spec fn grpc_port_fits(serial: Seq<char>) -> bool {
    match serial_console_port(serial) {
        Some(port) => port + GRPC_PORT_OFFSET <= u16::MAX,
        None => true,
    }
}

/// The gRPC port of `serial`.
pub open spec fn serial_grpc_port(serial: Seq<char>) -> Option<u16> {
    match serial_console_port(serial) {
        Some(port) => Some((port + GRPC_PORT_OFFSET) as u16),
        None => None,
    }
}

/// Reads the console port out of the serial of an emulator, the number in `emulator-5554`.
pub fn console_port_from_serial(serial: &str) -> (port: Option<u16>)
    ensures
        port == serial_console_port(serial@),
{
    let chars = text::chars_of(serial);
    if !starts_with(chars.as_slice(), "emulator-") {
        return None;
    }
    proof {
        reveal_strlit("emulator-");
    }
    let digits = slice_subrange(chars.as_slice(), 9, chars.len());
    text::read_u16(digits)
}

/// Derives the gRPC port for a running emulator from its ADB serial.
///
/// The emulator always allocates a console port (the number in `emulator-5554`)
/// and a gRPC bridge port at `console_port + 3000`. This is the same formula
/// Android Studio uses when no explicit `-grpc` flag was passed.
pub fn grpc_port_from_serial(serial: &str) -> (port: Option<u16>)
    requires
        grpc_port_fits(serial@),
    ensures
        port == serial_grpc_port(serial@),
{
    match console_port_from_serial(serial) {
        Some(console_port) => Some(console_port + GRPC_PORT_OFFSET),
        None => None,
    }
}

/// The emulator with console port `port` serves gRPC at `port + 3000`.
pub proof fn lemma_grpc_port_of_console_port(port: nat)
    requires
        port + GRPC_PORT_OFFSET <= u16::MAX,
    ensures
        grpc_port_fits("emulator-"@ + text::decimal(port)),
        serial_grpc_port("emulator-"@ + text::decimal(port)) == Some(
            (port + GRPC_PORT_OFFSET) as u16,
        ),
{
    let prefix = "emulator-"@;
    let serial = prefix + text::decimal(port);
    assert(serial.skip(prefix.len() as int) =~= text::decimal(port));
    text::lemma_parse_decimal(port);
}

/// The console port of an emulator is the number behind `emulator-`; a serial without that prefix,
/// or with something else behind it, has none. The gRPC port lies 3000 above it, where that is a
/// port number.
pub proof fn lemma_ports_of_serial(tail: Seq<char>, other: Seq<char>)
    requires
        !"emulator-"@.is_prefix_of(other),
    ensures
        serial_console_port("emulator-"@ + tail) == text::parse_u16(tail),
        serial_console_port(other) is None,
        serial_grpc_port(other) is None,
        grpc_port_fits(other),
        text::parse_u16(tail) is None ==> serial_grpc_port("emulator-"@ + tail) is None,
        text::parse_u16(tail) matches Some(port) ==> {
            &&& grpc_port_fits("emulator-"@ + tail) <==> port <= 62535
            &&& port <= 62535 ==> (serial_grpc_port("emulator-"@ + tail) matches Some(grpc_port)
                && grpc_port == port + 3000)
        },
{
    let prefix = "emulator-"@;
    let serial = prefix + tail;
    assert(serial.take(prefix.len() as int) =~= prefix);
    assert(serial.skip(prefix.len() as int) =~= tail);
}

} // verus!
