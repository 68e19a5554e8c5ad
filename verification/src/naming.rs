//! Names of capture sessions, photo timestamps and the paths that photos,
//! tiles and tables are written to, built from the local time and indices.

use vstd::prelude::*;
use crate::clock::{local_now, LocalTime};

verus! {

/// The decimal digit `d`, for `0 <= d < 10`.
pub open spec fn digit_char(d: int) -> char {
    if d == 0 {
        '0'
    } else if d == 1 {
        '1'
    } else if d == 2 {
        '2'
    } else if d == 3 {
        '3'
    } else if d == 4 {
        '4'
    } else if d == 5 {
        '5'
    } else if d == 6 {
        '6'
    } else if d == 7 {
        '7'
    } else if d == 8 {
        '8'
    } else {
        '9'
    }
}

/// `n` in decimal, without leading zeros.
pub open spec fn decimal(n: nat) -> Seq<char>
    decreases n,
{
    if n < 10 {
        seq![digit_char(n as int)]
    } else {
        decimal(n / 10).push(digit_char((n % 10) as int))
    }
}

/// `i` in decimal, with a leading `-` when negative.
pub open spec fn signed_decimal(i: int) -> Seq<char> {
    if i < 0 {
        seq!['-'] + decimal((-i) as nat)
    } else {
        decimal(i as nat)
    }
}

/// The last two decimal digits of `n`, zero-padded.
pub open spec fn two_digits(n: nat) -> Seq<char> {
    seq![digit_char(((n / 10) % 10) as int), digit_char((n % 10) as int)]
}

/// The parts joined with `sep` between neighbours.
pub open spec fn join_with(parts: Seq<Seq<char>>, sep: char) -> Seq<char>
    decreases parts.len(),
{
    if parts.len() == 0 {
        Seq::empty()
    } else if parts.len() == 1 {
        parts[0]
    } else {
        parts[0] + seq![sep] + join_with(parts.drop_first(), sep)
    }
}

/// Session name: `{day}_{month}_{hour}_{minute}_{year}`.
pub open spec fn spec_session_name(t: LocalTime) -> Seq<char> {
    join_with(
        seq![
            decimal(t.day as nat),
            decimal(t.month as nat),
            decimal(t.hour as nat),
            decimal(t.minute as nat),
            signed_decimal(t.year as int),
        ],
        '_',
    )
}

/// Photo timestamp:
/// `y:{year}-m:{month}-d:{day}-h:{hour}-mn:{minute}-s:{second}-t:+01:00`.
pub open spec fn spec_photo_timestamp(t: LocalTime) -> Seq<char> {
    "y:"@ + signed_decimal(t.year as int) + "-m:"@ + decimal(t.month as nat) + "-d:"@ + decimal(
        t.day as nat,
    ) + "-h:"@ + decimal(t.hour as nat) + "-mn:"@ + decimal(t.minute as nat) + "-s:"@ + decimal(
        t.second as nat,
    ) + "-t:+01:00"@
}

/// Log line of a weather fetch, with the month and the day counted from
/// zero: `{year}-{month0}-{day0}-{hour}:{minute}:{second}-+01:00`.
pub open spec fn spec_clock_line(t: LocalTime) -> Seq<char> {
    signed_decimal(t.year as int) + "-"@ + decimal((t.month - 1) as nat) + "-"@ + decimal(
        (t.day - 1) as nat,
    ) + "-"@ + decimal(t.hour as nat) + ":"@ + decimal(t.minute as nat) + ":"@ + decimal(
        t.second as nat,
    ) + "-+01:00"@
}

/// Folder of a day's photos: `images/{dd}_{mm}_{yy}`, the year taken
/// modulo 100.
pub open spec fn spec_day_folder(t: LocalTime) -> Seq<char> {
    "images/"@ + two_digits(t.day as nat) + "_"@ + two_digits(t.month as nat) + "_"@ + two_digits(
        (t.year as int % 100) as nat,
    )
}

/// A photo's file in a folder: `{folder}/{HH}_{MM}_{SS}.jpg`.
pub open spec fn spec_photo_path(folder: Seq<char>, t: LocalTime) -> Seq<char> {
    folder + "/"@ + two_digits(t.hour as nat) + "_"@ + two_digits(t.minute as nat) + "_"@
        + two_digits(t.second as nat) + ".jpg"@
}

/// A single photo's file: `images/{HH}_{MM}_{SS}_{mm}_{dd}.jpg`.
pub open spec fn spec_single_photo_path(t: LocalTime) -> Seq<char> {
    "images/"@ + two_digits(t.hour as nat) + "_"@ + two_digits(t.minute as nat) + "_"@
        + two_digits(t.second as nat) + "_"@ + two_digits(t.month as nat) + "_"@ + two_digits(
        t.day as nat,
    ) + ".jpg"@
}

/// The command that copies a photo from the camera host to a desktop.
pub open spec fn spec_copy_command(path: Seq<char>) -> Seq<char> {
    "scp m@192.168.1.77:~/Documents/rust/sky_watch/one_photo/"@ + path + " ~/Desktop"@
}

pub open spec fn spec_session_images_dir(session: Seq<char>) -> Seq<char> {
    "./output/sessions/"@ + session + "/images"@
}

pub open spec fn spec_session_csv_dir(session: Seq<char>) -> Seq<char> {
    "./output/sessions/"@ + session + "/csv"@
}

pub open spec fn spec_session_csv_path(session: Seq<char>) -> Seq<char> {
    "./output/sessions/"@ + session + "/csv/data.csv"@
}

pub open spec fn spec_session_image_path(session: Seq<char>, name: Seq<char>) -> Seq<char> {
    "./output/sessions/"@ + session + "/images/"@ + name
}

pub open spec fn spec_tile_csv_path(index: nat) -> Seq<char> {
    "./data/tile_data/csv//tile"@ + decimal(index) + ".csv"@
}

pub open spec fn spec_tile_image_dir(index: nat) -> Seq<char> {
    "./data/tile_data/image/"@ + decimal(index)
}

pub open spec fn spec_tile_image_path(dir: Seq<char>, image_index: nat) -> Seq<char> {
    dir + "/"@ + decimal(image_index) + ".jpg"@
}

/// The one-character text of digit `d`.
fn digit_text(d: u64) -> (s: &'static str)
    requires
        d < 10,
    ensures
        s@ == seq![digit_char(d as int)],
{
    if d == 0 {
        proof { reveal_strlit("0"); }
        "0"
    } else if d == 1 {
        proof { reveal_strlit("1"); }
        "1"
    } else if d == 2 {
        proof { reveal_strlit("2"); }
        "2"
    } else if d == 3 {
        proof { reveal_strlit("3"); }
        "3"
    } else if d == 4 {
        proof { reveal_strlit("4"); }
        "4"
    } else if d == 5 {
        proof { reveal_strlit("5"); }
        "5"
    } else if d == 6 {
        proof { reveal_strlit("6"); }
        "6"
    } else if d == 7 {
        proof { reveal_strlit("7"); }
        "7"
    } else if d == 8 {
        proof { reveal_strlit("8"); }
        "8"
    } else {
        proof { reveal_strlit("9"); }
        "9"
    }
}

/// Appends `n` in decimal.
fn push_decimal(s: &mut String, n: u64)
    ensures
        final(s)@ == old(s)@ + decimal(n as nat),
    decreases n,
{
    if n >= 10 {
        push_decimal(s, n / 10);
    }
    s.append(digit_text(n % 10));
    proof {
        if n >= 10 {
            assert(old(s)@ + decimal(n as nat) =~= old(s)@ + decimal((n / 10) as nat) + seq![
                digit_char((n % 10) as int),
            ]);
        }
    }
}

/// Appends `i` in decimal, signed.
fn push_signed(s: &mut String, i: i32)
    ensures
        final(s)@ == old(s)@ + signed_decimal(i as int),
{
    if i < 0 {
        s.append("-");
        proof { reveal_strlit("-"); }
        let magnitude: u64 = (-(i as i64)) as u64;
        push_decimal(s, magnitude);
        assert(s@ =~= old(s)@ + signed_decimal(i as int));
    } else {
        push_decimal(s, i as u64);
    }
}

/// Appends the last two digits of `n`, zero-padded.
fn push_two_digits(s: &mut String, n: u64)
    ensures
        final(s)@ == old(s)@ + two_digits(n as nat),
{
    s.append(digit_text((n / 10) % 10));
    s.append(digit_text(n % 10));
    assert(final(s)@ =~= old(s)@ + two_digits(n as nat));
}

/// Appends a single underscore.
fn push_underscore(s: &mut String)
    ensures
        final(s)@ == old(s)@ + "_"@,
        "_"@ == seq!['_'],
{
    s.append("_");
    proof { reveal_strlit("_"); }
}

/// Five parts joined with a separator, written out.
proof fn lemma_join_five(
    a: Seq<char>,
    b: Seq<char>,
    c: Seq<char>,
    d: Seq<char>,
    e: Seq<char>,
    sep: char,
)
    ensures
        join_with(seq![a, b, c, d, e], sep) == a + seq![sep] + b + seq![sep] + c + seq![sep] + d
            + seq![sep] + e,
{
    reveal_with_fuel(join_with, 6);
    let parts = seq![a, b, c, d, e];
    assert(parts.drop_first() =~= seq![b, c, d, e]);
    assert(parts.drop_first().drop_first() =~= seq![c, d, e]);
    assert(parts.drop_first().drop_first().drop_first() =~= seq![d, e]);
    assert(parts.drop_first().drop_first().drop_first().drop_first() =~= seq![e]);
    assert(join_with(seq![a, b, c, d, e], sep) =~= a + seq![sep] + b + seq![sep] + c + seq![sep]
        + d + seq![sep] + e);
}

/// The name of a capture session started at `t`.
pub fn session_name(t: &LocalTime) -> (name: String)
    ensures
        name@ == spec_session_name(*t),
{
    let mut s = String::new();
    push_decimal(&mut s, t.day as u64);
    push_underscore(&mut s);
    push_decimal(&mut s, t.month as u64);
    push_underscore(&mut s);
    push_decimal(&mut s, t.hour as u64);
    push_underscore(&mut s);
    push_decimal(&mut s, t.minute as u64);
    push_underscore(&mut s);
    push_signed(&mut s, t.year);
    proof {
        lemma_join_five(
            decimal(t.day as nat),
            decimal(t.month as nat),
            decimal(t.hour as nat),
            decimal(t.minute as nat),
            signed_decimal(t.year as int),
            '_',
        );
        assert(s@ =~= spec_session_name(*t));
    }
    s
}

/// Reads the clock and names a capture session started then: the reading,
/// and the name made of that very reading.
pub fn session_name_now() -> (res: (LocalTime, String))
    ensures
        res.0.wf(),
        res.1@ == spec_session_name(res.0),
{
    let t = local_now();
    let name = session_name(&t);
    (t, name)
}

/// The name of a capture session started now.
pub fn get_session_name() -> (name: String)
    ensures
        exists|t: LocalTime| t.wf() && name@ == spec_session_name(t),
{
    let (_reading, name) = session_name_now();
    name
}

/// The timestamp recorded with a photo taken at `t`.
pub fn photo_timestamp(t: &LocalTime) -> (stamp: String)
    ensures
        stamp@ == spec_photo_timestamp(*t),
{
    let mut s = String::new();
    s.append("y:");
    push_signed(&mut s, t.year);
    s.append("-m:");
    push_decimal(&mut s, t.month as u64);
    s.append("-d:");
    push_decimal(&mut s, t.day as u64);
    s.append("-h:");
    push_decimal(&mut s, t.hour as u64);
    s.append("-mn:");
    push_decimal(&mut s, t.minute as u64);
    s.append("-s:");
    push_decimal(&mut s, t.second as u64);
    s.append("-t:+01:00");
    assert(s@ =~= spec_photo_timestamp(*t));
    s
}

/// Reads the clock and timestamps a photo taken then: the reading, and the
/// timestamp made of that very reading.
pub fn photo_timestamp_now() -> (res: (LocalTime, String))
    ensures
        res.0.wf(),
        res.1@ == spec_photo_timestamp(res.0),
{
    let t = local_now();
    let stamp = photo_timestamp(&t);
    (t, stamp)
}

/// The timestamp of a photo taken now.
pub fn get_photo_timestamp() -> (stamp: String)
    ensures
        exists|t: LocalTime| t.wf() && stamp@ == spec_photo_timestamp(t),
{
    let (_reading, stamp) = photo_timestamp_now();
    stamp
}

/// The log line of a weather fetch at `t`.
pub fn clock_line(t: &LocalTime) -> (line: String)
    requires
        t.wf(),
    ensures
        line@ == spec_clock_line(*t),
{
    let mut s = String::new();
    push_signed(&mut s, t.year);
    s.append("-");
    push_decimal(&mut s, (t.month - 1) as u64);
    s.append("-");
    push_decimal(&mut s, (t.day - 1) as u64);
    s.append("-");
    push_decimal(&mut s, t.hour as u64);
    s.append(":");
    push_decimal(&mut s, t.minute as u64);
    s.append(":");
    push_decimal(&mut s, t.second as u64);
    s.append("-+01:00");
    assert(s@ =~= spec_clock_line(*t));
    s
}

/// The log line of a weather fetch now.
pub fn get_clock_line() -> (line: String)
    ensures
        exists|t: LocalTime| t.wf() && line@ == spec_clock_line(t),
{
    let t = local_now();
    clock_line(&t)
}

/// The folder of the photos taken on the day of `t`.
pub fn day_folder(t: &LocalTime) -> (folder: String)
    requires
        t.wf(),
    ensures
        folder@ == spec_day_folder(*t),
{
    let mut s = String::from_str("images/");
    push_two_digits(&mut s, t.day as u64);
    s.append("_");
    push_two_digits(&mut s, t.month as u64);
    s.append("_");
    let shifted: u64 = (t.year as i64 + 300000) as u64;
    proof {
        vstd::arithmetic::div_mod::lemma_mod_multiples_vanish(3000, t.year as int, 100);
    }
    push_two_digits(&mut s, shifted % 100);
    assert(s@ =~= spec_day_folder(*t));
    s
}

/// The file of a photo taken at `t`, in `folder`.
pub fn photo_path(folder: &String, t: &LocalTime) -> (path: String)
    ensures
        path@ == spec_photo_path(folder@, *t),
{
    let mut s = folder.clone();
    s.append("/");
    push_two_digits(&mut s, t.hour as u64);
    s.append("_");
    push_two_digits(&mut s, t.minute as u64);
    s.append("_");
    push_two_digits(&mut s, t.second as u64);
    s.append(".jpg");
    assert(s@ =~= spec_photo_path(folder@, *t));
    s
}

/// The file of a single photo taken at `t`.
pub fn single_photo_path(t: &LocalTime) -> (path: String)
    ensures
        path@ == spec_single_photo_path(*t),
{
    let mut s = String::from_str("images/");
    push_two_digits(&mut s, t.hour as u64);
    s.append("_");
    push_two_digits(&mut s, t.minute as u64);
    s.append("_");
    push_two_digits(&mut s, t.second as u64);
    s.append("_");
    push_two_digits(&mut s, t.month as u64);
    s.append("_");
    push_two_digits(&mut s, t.day as u64);
    s.append(".jpg");
    assert(s@ =~= spec_single_photo_path(*t));
    s
}

/// The command that copies the photo at `path` to a desktop.
pub fn copy_command(path: &String) -> (cmd: String)
    ensures
        cmd@ == spec_copy_command(path@),
{
    let mut s = String::from_str("scp m@192.168.1.77:~/Documents/rust/sky_watch/one_photo/");
    s.append(path.as_str());
    s.append(" ~/Desktop");
    s
}

/// Folder of a session's photos.
pub fn session_images_dir(session: &String) -> (dir: String)
    ensures
        dir@ == spec_session_images_dir(session@),
{
    let mut s = String::from_str("./output/sessions/");
    s.append(session.as_str());
    s.append("/images");
    s
}

/// Folder of a session's table.
pub fn session_csv_dir(session: &String) -> (dir: String)
    ensures
        dir@ == spec_session_csv_dir(session@),
{
    let mut s = String::from_str("./output/sessions/");
    s.append(session.as_str());
    s.append("/csv");
    s
}

/// File of a session's table.
pub fn session_csv_path(session: &String) -> (path: String)
    ensures
        path@ == spec_session_csv_path(session@),
{
    let mut s = String::from_str("./output/sessions/");
    s.append(session.as_str());
    s.append("/csv/data.csv");
    s
}

/// File of a session's photo called `name`.
pub fn session_image_path(session: &String, name: &String) -> (path: String)
    ensures
        path@ == spec_session_image_path(session@, name@),
{
    let mut s = String::from_str("./output/sessions/");
    s.append(session.as_str());
    s.append("/images/");
    s.append(name.as_str());
    s
}

/// File of the table of tile `index`.
pub fn tile_csv_path(index: u32) -> (path: String)
    ensures
        path@ == spec_tile_csv_path(index as nat),
{
    let mut s = String::from_str("./data/tile_data/csv//tile");
    push_decimal(&mut s, index as u64);
    s.append(".csv");
    s
}

/// Folder of the crops of tile `index`.
pub fn tile_image_dir(index: u32) -> (dir: String)
    ensures
        dir@ == spec_tile_image_dir(index as nat),
{
    let mut s = String::from_str("./data/tile_data/image/");
    push_decimal(&mut s, index as u64);
    s
}

/// File of the crop of image `image_index` in a tile's folder.
pub fn tile_image_path(dir: &String, image_index: u64) -> (path: String)
    ensures
        path@ == spec_tile_image_path(dir@, image_index as nat),
{
    let mut s = dir.clone();
    s.append("/");
    push_decimal(&mut s, image_index);
    s.append(".jpg");
    s
}

/// A decimal digit character.
pub open spec fn is_digit(c: char) -> bool {
    '0' <= c <= '9'
}

proof fn lemma_digit_char(d: int)
    requires
        0 <= d < 10,
    ensures
        is_digit(digit_char(d)),
        forall|e: int| 0 <= e < 10 && digit_char(e) == digit_char(d) ==> e == d,
{
}

/// A decimal is non-empty and made of digits.
proof fn lemma_decimal_digits(n: nat)
    ensures
        decimal(n).len() >= 1,
        forall|i: int| 0 <= i < decimal(n).len() ==> is_digit(#[trigger] decimal(n)[i]),
    decreases n,
{
    if n < 10 {
        lemma_digit_char(n as int);
    } else {
        lemma_decimal_digits(n / 10);
        lemma_digit_char((n % 10) as int);
    }
}

/// Different numbers have different decimals.
proof fn lemma_decimal_injective(a: nat, b: nat)
    requires
        decimal(a) == decimal(b),
    ensures
        a == b,
    decreases a,
{
    lemma_decimal_digits(a);
    lemma_decimal_digits(b);
    if a < 10 && b < 10 {
        lemma_digit_char(a as int);
        lemma_digit_char(b as int);
        assert(decimal(a) == seq![digit_char(a as int)]);
        assert(decimal(b) == seq![digit_char(b as int)]);
        assert(decimal(a)[0] == decimal(b)[0]);
        assert(seq![digit_char(a as int)][0] == digit_char(a as int));
        assert(seq![digit_char(b as int)][0] == digit_char(b as int));
        assert(digit_char(a as int) == digit_char(b as int));
        assert(a == b);
    } else if a < 10 {
        lemma_decimal_digits(b / 10);
        assert(decimal(b).len() >= 2);
    } else if b < 10 {
        lemma_decimal_digits(a / 10);
        assert(decimal(a).len() >= 2);
    } else {
        let da = decimal(a / 10);
        let db = decimal(b / 10);
        assert(decimal(a).last() == digit_char((a % 10) as int));
        assert(decimal(b).last() == digit_char((b % 10) as int));
        lemma_digit_char((a % 10) as int);
        lemma_digit_char((b % 10) as int);
        assert(decimal(a).drop_last() =~= da);
        assert(decimal(b).drop_last() =~= db);
        assert(da == db);
        assert(a % 10 == b % 10);
        lemma_decimal_injective(a / 10, b / 10);
        vstd::arithmetic::div_mod::lemma_fundamental_div_mod(a as int, 10);
        vstd::arithmetic::div_mod::lemma_fundamental_div_mod(b as int, 10);
        assert(a == b);
    }
}

/// Different integers have different signed decimals, and these hold no
/// character but digits and `-`.
proof fn lemma_signed_decimal(a: int, b: int)
    ensures
        signed_decimal(a) == signed_decimal(b) ==> a == b,
        forall|i: int|
            0 <= i < signed_decimal(a).len() ==> #[trigger] signed_decimal(a)[i] == '-'
                || is_digit(signed_decimal(a)[i]),
{
    lemma_decimal_digits((if a < 0 { -a } else { a }) as nat);
    lemma_decimal_digits((if b < 0 { -b } else { b }) as nat);
    assert forall|i: int|
        0 <= i < signed_decimal(a).len() implies #[trigger] signed_decimal(a)[i] == '-'
            || is_digit(signed_decimal(a)[i]) by {
        if a < 0 && i > 0 {
            assert(signed_decimal(a)[i] == decimal((-a) as nat)[i - 1]);
        }
    }
    if signed_decimal(a) == signed_decimal(b) {
        if a < 0 && b < 0 {
            assert(signed_decimal(a).drop_first() =~= decimal((-a) as nat));
            assert(signed_decimal(b).drop_first() =~= decimal((-b) as nat));
            lemma_decimal_injective((-a) as nat, (-b) as nat);
        } else if a < 0 {
            assert(signed_decimal(a)[0] == '-');
            assert(is_digit(decimal(b as nat)[0]));
        } else if b < 0 {
            assert(signed_decimal(b)[0] == '-');
            assert(is_digit(decimal(a as nat)[0]));
        } else {
            lemma_decimal_injective(a as nat, b as nat);
        }
    }
}

/// Two texts that each end their first field with the same separator,
/// absent from both fields, agree on that field and on the rest.
proof fn lemma_split_at_separator(a1: Seq<char>, r1: Seq<char>, a2: Seq<char>, r2: Seq<char>, sep: char)
    requires
        !a1.contains(sep),
        !a2.contains(sep),
        a1 + seq![sep] + r1 == a2 + seq![sep] + r2,
    ensures
        a1 == a2,
        r1 == r2,
{
    let s1 = a1 + seq![sep] + r1;
    let s2 = a2 + seq![sep] + r2;
    if a1.len() < a2.len() {
        assert(s1[a1.len() as int] == sep);
        assert(s2[a1.len() as int] == a2[a1.len() as int]);
        assert(a2.contains(a2[a1.len() as int]));
    } else if a2.len() < a1.len() {
        assert(s2[a2.len() as int] == sep);
        assert(s1[a2.len() as int] == a1[a2.len() as int]);
        assert(a1.contains(a1[a2.len() as int]));
    }
    assert(a1 =~= s1.subrange(0, a1.len() as int));
    assert(a2 =~= s2.subrange(0, a2.len() as int));
    assert(r1 =~= s1.subrange(a1.len() as int + 1, s1.len() as int));
    assert(r2 =~= s2.subrange(a2.len() as int + 1, s2.len() as int));
}

/// Joining parts free of the separator is injective for a given number of
/// parts.
proof fn lemma_join_injective(p1: Seq<Seq<char>>, p2: Seq<Seq<char>>, sep: char)
    requires
        p1.len() == p2.len(),
        forall|i: int| 0 <= i < p1.len() ==> !(#[trigger] p1[i]).contains(sep),
        forall|i: int| 0 <= i < p2.len() ==> !(#[trigger] p2[i]).contains(sep),
        join_with(p1, sep) == join_with(p2, sep),
    ensures
        p1 == p2,
    decreases p1.len(),
{
    if p1.len() == 0 {
        assert(p1 =~= p2);
    } else if p1.len() == 1 {
        assert(p1 =~= p2);
    } else {
        assert(!p1[0].contains(sep));
        assert(!p2[0].contains(sep));
        lemma_split_at_separator(p1[0], join_with(p1.drop_first(), sep), p2[0], join_with(
            p2.drop_first(),
            sep,
        ), sep);
        assert forall|i: int| 0 <= i < p1.drop_first().len() implies !(
        #[trigger] p1.drop_first()[i]).contains(sep) by {
            assert(p1.drop_first()[i] == p1[i + 1]);
        }
        assert forall|i: int| 0 <= i < p2.drop_first().len() implies !(
        #[trigger] p2.drop_first()[i]).contains(sep) by {
            assert(p2.drop_first()[i] == p2[i + 1]);
        }
        lemma_join_injective(p1.drop_first(), p2.drop_first(), sep);
        assert(p1 =~= p2) by {
            assert forall|i: int| 0 <= i < p1.len() implies p1[i] == p2[i] by {
                if i > 0 {
                    assert(p1[i] == p1.drop_first()[i - 1]);
                    assert(p2[i] == p2.drop_first()[i - 1]);
                }
            }
        }
    }
}

/// A decimal holds no `_`.
proof fn lemma_decimal_free_of(n: nat, c: char)
    requires
        !is_digit(c),
    ensures
        !decimal(n).contains(c),
{
    lemma_decimal_digits(n);
}

/// Law: a session name determines the day, month, hour, minute and year
/// that it was made from.
pub proof fn law_session_name_injective(t1: LocalTime, t2: LocalTime)
    requires
        spec_session_name(t1) == spec_session_name(t2),
    ensures
        t1.day == t2.day,
        t1.month == t2.month,
        t1.hour == t2.hour,
        t1.minute == t2.minute,
        t1.year == t2.year,
{
    let p1 = seq![
        decimal(t1.day as nat),
        decimal(t1.month as nat),
        decimal(t1.hour as nat),
        decimal(t1.minute as nat),
        signed_decimal(t1.year as int),
    ];
    let p2 = seq![
        decimal(t2.day as nat),
        decimal(t2.month as nat),
        decimal(t2.hour as nat),
        decimal(t2.minute as nat),
        signed_decimal(t2.year as int),
    ];
    lemma_signed_decimal(t1.year as int, t2.year as int);
    lemma_signed_decimal(t2.year as int, t1.year as int);
    assert forall|i: int| 0 <= i < p1.len() implies !(#[trigger] p1[i]).contains('_') by {
        if i < 4 {
            lemma_decimal_free_of(t1.day as nat, '_');
            lemma_decimal_free_of(t1.month as nat, '_');
            lemma_decimal_free_of(t1.hour as nat, '_');
            lemma_decimal_free_of(t1.minute as nat, '_');
        } else {
            if signed_decimal(t1.year as int).contains('_') {
                let j = choose|j: int|
                    0 <= j < signed_decimal(t1.year as int).len() && signed_decimal(
                        t1.year as int,
                    )[j] == '_';
                assert(signed_decimal(t1.year as int)[j] == '-' || is_digit(
                    signed_decimal(t1.year as int)[j],
                ));
            }
        }
    }
    assert forall|i: int| 0 <= i < p2.len() implies !(#[trigger] p2[i]).contains('_') by {
        if i < 4 {
            lemma_decimal_free_of(t2.day as nat, '_');
            lemma_decimal_free_of(t2.month as nat, '_');
            lemma_decimal_free_of(t2.hour as nat, '_');
            lemma_decimal_free_of(t2.minute as nat, '_');
        } else {
            if signed_decimal(t2.year as int).contains('_') {
                let j = choose|j: int|
                    0 <= j < signed_decimal(t2.year as int).len() && signed_decimal(
                        t2.year as int,
                    )[j] == '_';
                assert(signed_decimal(t2.year as int)[j] == '-' || is_digit(
                    signed_decimal(t2.year as int)[j],
                ));
            }
        }
    }
    lemma_join_injective(p1, p2, '_');
    assert(p1[0] == p2[0]);
    assert(p1[1] == p2[1]);
    assert(p1[2] == p2[2]);
    assert(p1[3] == p2[3]);
    assert(p1[4] == p2[4]);
    lemma_decimal_injective(t1.day as nat, t2.day as nat);
    lemma_decimal_injective(t1.month as nat, t2.month as nat);
    lemma_decimal_injective(t1.hour as nat, t2.hour as nat);
    lemma_decimal_injective(t1.minute as nat, t2.minute as nat);
}

/// Two-digit fields of numbers below 100 are injective.
proof fn lemma_two_digits_injective(a: nat, b: nat)
    requires
        a < 100,
        b < 100,
        two_digits(a) == two_digits(b),
    ensures
        a == b,
{
    assert(two_digits(a)[0] == two_digits(b)[0]);
    assert(two_digits(a)[1] == two_digits(b)[1]);
    lemma_digit_char(((a / 10) % 10) as int);
    lemma_digit_char((a % 10) as int);
    lemma_digit_char(((b / 10) % 10) as int);
    lemma_digit_char((b % 10) as int);
    assert((a / 10) % 10 == (b / 10) % 10);
    assert(a % 10 == b % 10);
    vstd::arithmetic::div_mod::lemma_fundamental_div_mod(a as int, 10);
    vstd::arithmetic::div_mod::lemma_fundamental_div_mod(b as int, 10);
}

/// The fields of a photo's path, read back at their fixed places.
proof fn lemma_photo_path_fields(t: LocalTime)
    requires
        t.wf(),
    ensures
        ({
            let p = spec_photo_path(spec_day_folder(t), t);
            &&& p.subrange(7, 9) == two_digits(t.day as nat)
            &&& p.subrange(10, 12) == two_digits(t.month as nat)
            &&& p.subrange(13, 15) == two_digits((t.year as int % 100) as nat)
            &&& p.subrange(16, 18) == two_digits(t.hour as nat)
            &&& p.subrange(19, 21) == two_digits(t.minute as nat)
            &&& p.subrange(22, 24) == two_digits(t.second as nat)
        }),
{
    reveal_strlit("images/");
    reveal_strlit("_");
    reveal_strlit("/");
    reveal_strlit(".jpg");
    let p = spec_photo_path(spec_day_folder(t), t);
    assert(p.subrange(7, 9) =~= two_digits(t.day as nat));
    assert(p.subrange(10, 12) =~= two_digits(t.month as nat));
    assert(p.subrange(13, 15) =~= two_digits((t.year as int % 100) as nat));
    assert(p.subrange(16, 18) =~= two_digits(t.hour as nat));
    assert(p.subrange(19, 21) =~= two_digits(t.minute as nat));
    assert(p.subrange(22, 24) =~= two_digits(t.second as nat));
}

/// Law: a photo's path in its day's folder determines the day, month,
/// year modulo 100 and the time of day to the second, so photos taken at
/// different seconds of a century never share a file.
pub proof fn law_photo_paths_distinct(t1: LocalTime, t2: LocalTime)
    requires
        t1.wf(),
        t2.wf(),
        spec_photo_path(spec_day_folder(t1), t1) == spec_photo_path(spec_day_folder(t2), t2),
    ensures
        t1.day == t2.day,
        t1.month == t2.month,
        t1.year as int % 100 == t2.year as int % 100,
        t1.hour == t2.hour,
        t1.minute == t2.minute,
        t1.second == t2.second,
{
    lemma_photo_path_fields(t1);
    lemma_photo_path_fields(t2);
    lemma_two_digits_injective(t1.day as nat, t2.day as nat);
    lemma_two_digits_injective(t1.month as nat, t2.month as nat);
    lemma_two_digits_injective((t1.year as int % 100) as nat, (t2.year as int % 100) as nat);
    lemma_two_digits_injective(t1.hour as nat, t2.hour as nat);
    lemma_two_digits_injective(t1.minute as nat, t2.minute as nat);
    lemma_two_digits_injective(t1.second as nat, t2.second as nat);
}

/// The fields of a single photo's path, read back at their fixed places.
proof fn lemma_single_photo_path_fields(t: LocalTime)
    ensures
        ({
            let p = spec_single_photo_path(t);
            &&& p.subrange(7, 9) == two_digits(t.hour as nat)
            &&& p.subrange(10, 12) == two_digits(t.minute as nat)
            &&& p.subrange(13, 15) == two_digits(t.second as nat)
            &&& p.subrange(16, 18) == two_digits(t.month as nat)
            &&& p.subrange(19, 21) == two_digits(t.day as nat)
        }),
{
    reveal_strlit("images/");
    reveal_strlit("_");
    reveal_strlit(".jpg");
    let p = spec_single_photo_path(t);
    assert(p.subrange(7, 9) =~= two_digits(t.hour as nat));
    assert(p.subrange(10, 12) =~= two_digits(t.minute as nat));
    assert(p.subrange(13, 15) =~= two_digits(t.second as nat));
    assert(p.subrange(16, 18) =~= two_digits(t.month as nat));
    assert(p.subrange(19, 21) =~= two_digits(t.day as nat));
}

/// Law: a single photo's path determines the hour, minute, second, month
/// and day it was taken at, so photos taken at different seconds of a year
/// never share a file.
pub proof fn law_single_photo_paths_distinct(t1: LocalTime, t2: LocalTime)
    requires
        t1.wf(),
        t2.wf(),
        spec_single_photo_path(t1) == spec_single_photo_path(t2),
    ensures
        t1.hour == t2.hour,
        t1.minute == t2.minute,
        t1.second == t2.second,
        t1.month == t2.month,
        t1.day == t2.day,
{
    lemma_single_photo_path_fields(t1);
    lemma_single_photo_path_fields(t2);
    lemma_two_digits_injective(t1.hour as nat, t2.hour as nat);
    lemma_two_digits_injective(t1.minute as nat, t2.minute as nat);
    lemma_two_digits_injective(t1.second as nat, t2.second as nat);
    lemma_two_digits_injective(t1.month as nat, t2.month as nat);
    lemma_two_digits_injective(t1.day as nat, t2.day as nat);
}

/// Two texts that each start their last field after the same separator,
/// absent from both last fields, agree on that field and on what precedes.
proof fn lemma_split_last_field(a1: Seq<char>, b1: Seq<char>, a2: Seq<char>, b2: Seq<char>, sep: char)
    requires
        !b1.contains(sep),
        !b2.contains(sep),
        a1 + seq![sep] + b1 == a2 + seq![sep] + b2,
    ensures
        a1 == a2,
        b1 == b2,
{
    let s1 = a1 + seq![sep] + b1;
    let s2 = a2 + seq![sep] + b2;
    let n = s1.len() as int;
    if b1.len() < b2.len() {
        let k = b2.len() - b1.len() - 1;
        assert(s1[n - b1.len() - 1] == sep);
        assert(s2[n - b1.len() - 1] == b2[k]);
        assert(b2.contains(b2[k]));
    } else if b2.len() < b1.len() {
        let k = b1.len() - b2.len() - 1;
        assert(s2[n - b2.len() - 1] == sep);
        assert(s1[n - b2.len() - 1] == b1[k]);
        assert(b1.contains(b1[k]));
    }
    assert(a1 =~= s1.subrange(0, a1.len() as int));
    assert(a2 =~= s2.subrange(0, a2.len() as int));
    assert(b1 =~= s1.subrange(n - b1.len(), n));
    assert(b2 =~= s2.subrange(n - b2.len(), n));
}

/// A label followed by a decimal holds no `-` when the label has none.
proof fn lemma_labelled_free(label: Seq<char>, n: nat)
    requires
        !label.contains('-'),
    ensures
        !(label + decimal(n)).contains('-'),
{
    lemma_decimal_digits(n);
    if (label + decimal(n)).contains('-') {
        let j = choose|j: int| 0 <= j < (label + decimal(n)).len() && (label + decimal(n))[j] == '-';
        if j < label.len() {
            assert(label[j] == '-');
            assert(label.contains(label[j]));
        } else {
            assert(decimal(n)[j - label.len()] == '-');
        }
    }
}

/// One step of reading a timestamp from its end: equal texts ending in
/// `-`, a label and a decimal agree on the decimal and on what precedes.
proof fn lemma_peel_field(
    a1: Seq<char>,
    a2: Seq<char>,
    label_text: Seq<char>,
    label: Seq<char>,
    n1: nat,
    n2: nat,
)
    requires
        label_text == seq!['-'] + label,
        !label.contains('-'),
        a1 + label_text + decimal(n1) == a2 + label_text + decimal(n2),
    ensures
        a1 == a2,
        n1 == n2,
{
    lemma_labelled_free(label, n1);
    lemma_labelled_free(label, n2);
    assert(a1 + label_text + decimal(n1) =~= a1 + seq!['-'] + (label + decimal(n1)));
    assert(a2 + label_text + decimal(n2) =~= a2 + seq!['-'] + (label + decimal(n2)));
    lemma_split_last_field(a1, label + decimal(n1), a2, label + decimal(n2), '-');
    assert(decimal(n1) =~= (label + decimal(n1)).subrange(label.len() as int, (label + decimal(
        n1,
    )).len() as int));
    assert(decimal(n2) =~= (label + decimal(n2)).subrange(label.len() as int, (label + decimal(
        n2,
    )).len() as int));
    lemma_decimal_injective(n1, n2);
}

/// Law: a photo timestamp determines the whole time it was made from.
pub proof fn law_photo_timestamp_injective(t1: LocalTime, t2: LocalTime)
    requires
        spec_photo_timestamp(t1) == spec_photo_timestamp(t2),
    ensures
        t1 == t2,
{
    reveal_strlit("y:");
    reveal_strlit("-m:");
    reveal_strlit("-d:");
    reveal_strlit("-h:");
    reveal_strlit("-mn:");
    reveal_strlit("-s:");
    reveal_strlit("-t:+01:00");
    let y1 = "y:"@ + signed_decimal(t1.year as int);
    let y2 = "y:"@ + signed_decimal(t2.year as int);
    let m1 = y1 + "-m:"@ + decimal(t1.month as nat);
    let m2 = y2 + "-m:"@ + decimal(t2.month as nat);
    let d1 = m1 + "-d:"@ + decimal(t1.day as nat);
    let d2 = m2 + "-d:"@ + decimal(t2.day as nat);
    let h1 = d1 + "-h:"@ + decimal(t1.hour as nat);
    let h2 = d2 + "-h:"@ + decimal(t2.hour as nat);
    let mn1 = h1 + "-mn:"@ + decimal(t1.minute as nat);
    let mn2 = h2 + "-mn:"@ + decimal(t2.minute as nat);
    let s1 = mn1 + "-s:"@ + decimal(t1.second as nat);
    let s2 = mn2 + "-s:"@ + decimal(t2.second as nat);
    assert(s1 + "-t:+01:00"@ == s2 + "-t:+01:00"@);
    assert(s1 =~= (s1 + "-t:+01:00"@).subrange(0, s1.len() as int));
    assert(s2 =~= (s2 + "-t:+01:00"@).subrange(0, s2.len() as int));
    assert("-s:"@ =~= seq!['-'] + seq!['s', ':']);
    assert("-mn:"@ =~= seq!['-'] + seq!['m', 'n', ':']);
    assert("-h:"@ =~= seq!['-'] + seq!['h', ':']);
    assert("-d:"@ =~= seq!['-'] + seq!['d', ':']);
    assert("-m:"@ =~= seq!['-'] + seq!['m', ':']);
    lemma_peel_field(mn1, mn2, "-s:"@, seq!['s', ':'], t1.second as nat, t2.second as nat);
    lemma_peel_field(h1, h2, "-mn:"@, seq!['m', 'n', ':'], t1.minute as nat, t2.minute as nat);
    lemma_peel_field(d1, d2, "-h:"@, seq!['h', ':'], t1.hour as nat, t2.hour as nat);
    lemma_peel_field(m1, m2, "-d:"@, seq!['d', ':'], t1.day as nat, t2.day as nat);
    lemma_peel_field(y1, y2, "-m:"@, seq!['m', ':'], t1.month as nat, t2.month as nat);
    assert(signed_decimal(t1.year as int) =~= y1.subrange(2, y1.len() as int));
    assert(signed_decimal(t2.year as int) =~= y2.subrange(2, y2.len() as int));
    lemma_signed_decimal(t1.year as int, t2.year as int);
}

} // verus!
