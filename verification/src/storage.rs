use vstd::prelude::*;

use crate::command::CommandReply;
use crate::text::{
    join_from, joined, lines, lines_of, parse_unsigned, parsed_unsigned, same_text, starts_with,
    strip_trailing, trim_end_char, views, words, words_of,
};

verus! {

/// One mounted filesystem as `df` reports it. The use percentage is kept as
/// the text of `df`'s `pcent` column without its `%` signs.
pub struct DiskUsage {
    pub device: String,
    pub fstype: String,
    pub mount: String,
    pub total_bytes: u64,
    pub used_bytes: u64,
    pub avail_bytes: u64,
    pub percent_text: String,
}

/// The contents of a `DiskUsage`, as text and numbers.
pub ghost struct DiskRecord {
    pub device: Seq<char>,
    pub fstype: Seq<char>,
    pub mount: Seq<char>,
    pub total_bytes: u64,
    pub used_bytes: u64,
    pub avail_bytes: u64,
    pub percent_text: Seq<char>,
}

impl View for DiskUsage {
    type V = DiskRecord;

    open spec fn view(&self) -> DiskRecord {
        DiskRecord {
            device: self.device@,
            fstype: self.fstype@,
            mount: self.mount@,
            total_bytes: self.total_bytes,
            used_bytes: self.used_bytes,
            avail_bytes: self.avail_bytes,
            percent_text: self.percent_text@,
        }
    }
}

/// Whether `s` begins with `p`.
pub open spec fn begins(s: Seq<char>, p: Seq<char>) -> bool {
    p.len() <= s.len() && s.subrange(0, p.len() as int) == p
}

/// The `i`-th word, or `default` when there are fewer words.
pub open spec fn word_or(ws: Seq<Seq<char>>, i: int, default: Seq<char>) -> Seq<char> {
    if i < ws.len() {
        ws[i]
    } else {
        default
    }
}

/// The `i`-th word read as a `u64`; 0 when it is missing or does not parse.
pub open spec fn number_or_zero(ws: Seq<Seq<char>>, i: int) -> u64 {
    if i < ws.len() {
        match parsed_unsigned(ws[i], u64::MAX as nat) {
            Some(v) => v as u64,
            None => 0,
        }
    } else {
        0
    }
}

/// The words from the `k`-th on.
pub open spec fn words_after(ws: Seq<Seq<char>>, k: int) -> Seq<Seq<char>> {
    if k <= ws.len() {
        ws.subrange(k, ws.len() as int)
    } else {
        seq![]
    }
}

/// One line of `df --output=source,fstype,size,used,avail,pcent,target`:
/// the first six whitespace-separated columns, and the mount point made of
/// the remaining words joined by single spaces.
pub open spec fn disk_of_line(line: Seq<char>) -> DiskRecord {
    let ws = words_of(line);
    DiskRecord {
        device: word_or(ws, 0, ""@),
        fstype: word_or(ws, 1, ""@),
        mount: joined(words_after(ws, 6), " "@),
        total_bytes: number_or_zero(ws, 2),
        used_bytes: number_or_zero(ws, 3),
        avail_bytes: number_or_zero(ws, 4),
        percent_text: strip_trailing(word_or(ws, 5, "0%"@), '%'),
    }
}

/// Whether a filesystem is worth showing: not a pseudo or image filesystem,
/// not mounted under a system tree, and not of size zero.
pub open spec fn relevant(d: DiskRecord) -> bool {
    !{
        ||| d.fstype == "tmpfs"@
        ||| d.fstype == "devtmpfs"@
        ||| d.fstype == "squashfs"@
        ||| d.fstype == "overlay"@
        ||| d.fstype == "efivarfs"@
        ||| d.fstype == "autofs"@
        ||| begins(d.mount, "/snap"@)
        ||| begins(d.mount, "/run"@)
        ||| begins(d.mount, "/proc"@)
        ||| begins(d.mount, "/sys"@)
        ||| begins(d.mount, "/dev"@)
        ||| d.total_bytes == 0
    }
}

/// The place of a mount point in the listing: root, then boot, then home,
/// then the rest.
pub open spec fn mount_rank(m: Seq<char>) -> nat {
    if m == "/"@ {
        0
    } else if begins(m, "/boot"@) {
        1
    } else if begins(m, "/home"@) {
        2
    } else {
        3
    }
}

/// The data lines of `df`'s output (all but the header), read as disks.
pub open spec fn df_records(text: Seq<char>) -> Seq<DiskRecord> {
    let ls = lines_of(text);
    if ls.len() == 0 {
        seq![]
    } else {
        ls.drop_first().map_values(|l: Seq<char>| disk_of_line(l))
    }
}

/// The relevant disks of rank `k`, in the order `df` gave them.
pub open spec fn ranked(ds: Seq<DiskRecord>, k: nat) -> Seq<DiskRecord> {
    ds.filter(|d: DiskRecord| relevant(d) && mount_rank(d.mount) == k)
}

/// The relevant disks of `df`'s output, stably ordered by mount rank.
pub open spec fn listed_disks(text: Seq<char>) -> Seq<DiskRecord> {
    let ds = df_records(text);
    ranked(ds, 0) + ranked(ds, 1) + ranked(ds, 2) + ranked(ds, 3)
}

fn word_at_or(ws: &Vec<String>, i: usize, default: &str) -> (r: String)
    ensures
        r@ == word_or(views(ws@), i as int, default@),
{
    if i < ws.len() {
        ws[i].clone()
    } else {
        String::from_str(default)
    }
}

fn number_at(ws: &Vec<String>, i: usize) -> (r: u64)
    ensures
        r == number_or_zero(views(ws@), i as int),
{
    if i < ws.len() {
        match parse_unsigned(ws[i].as_str(), u64::MAX) {
            Some(v) => v,
            None => 0,
        }
    } else {
        0
    }
}

/// Reads one data line of `df`'s output.
pub fn disk_from_line(line: &str) -> (r: DiskUsage)
    ensures
        r@ == disk_of_line(line@),
{
    let ws = words(line);
    let n = ws.len();
    let device = word_at_or(&ws, 0, "");
    let fstype = word_at_or(&ws, 1, "");
    let total_bytes = number_at(&ws, 2);
    let used_bytes = number_at(&ws, 3);
    let avail_bytes = number_at(&ws, 4);
    let pcent = word_at_or(&ws, 5, "0%");
    let percent_text = trim_end_char(pcent.as_str(), '%');
    let mount = if n >= 6 {
        join_from(&ws, 6, " ")
    } else {
        proof {
            assert(words_after(views(ws@), 6) =~= Seq::<Seq<char>>::empty());
        }
        String::new()
    };
    DiskUsage { device, fstype, mount, total_bytes, used_bytes, avail_bytes, percent_text }
}

/// Whether a disk belongs in the listing.
pub fn is_relevant(d: &DiskUsage) -> (r: bool)
    ensures
        r == relevant(d@),
{
    let f = d.fstype.as_str();
    let m = d.mount.as_str();
    !(same_text(f, "tmpfs") || same_text(f, "devtmpfs") || same_text(f, "squashfs")
        || same_text(f, "overlay") || same_text(f, "efivarfs") || same_text(f, "autofs")
        || starts_with(m, "/snap") || starts_with(m, "/run") || starts_with(m, "/proc")
        || starts_with(m, "/sys") || starts_with(m, "/dev") || d.total_bytes == 0)
}

/// The listing place of a mount point.
pub fn rank_of_mount(m: &str) -> (r: u8)
    ensures
        r == mount_rank(m@),
{
    if same_text(m, "/") {
        0
    } else if starts_with(m, "/boot") {
        1
    } else if starts_with(m, "/home") {
        2
    } else {
        3
    }
}

/// Lists the relevant filesystems from the output of
/// `df -B1 --output=source,fstype,size,used,avail,pcent,target`: root first,
/// then boot, then home, then the rest, each group in `df`'s order. When
/// `df` could not run or failed, the list is empty.
pub fn list_disks(reply: &CommandReply) -> (r: Vec<DiskUsage>)
    ensures
        match reply {
            Ok(o) if o.success => r@.map_values(|d: DiskUsage| d@) == listed_disks(o.stdout@),
            _ => r@.len() == 0,
        },
{
    let text = match reply {
        Ok(o) => if o.success {
            o.stdout.as_str()
        } else {
            return Vec::new();
        },
        Err(_) => return Vec::new(),
    };
    let ls = lines(text);
    let n = ls.len();
    let ghost recs = df_records(text@);
    let mut b0: Vec<DiskUsage> = Vec::new();
    let mut b1: Vec<DiskUsage> = Vec::new();
    let mut b2: Vec<DiskUsage> = Vec::new();
    let mut b3: Vec<DiskUsage> = Vec::new();
    if n == 0 {
        assert(recs =~= Seq::<DiskRecord>::empty());
        assert(ranked(recs, 0) =~= Seq::<DiskRecord>::empty());
        assert(ranked(recs, 1) =~= Seq::<DiskRecord>::empty());
        assert(ranked(recs, 2) =~= Seq::<DiskRecord>::empty());
        assert(ranked(recs, 3) =~= Seq::<DiskRecord>::empty());
        return Vec::new();
    }
    assert(recs.len() == n - 1);
    let mut i: usize = 1;
    while i < n
        invariant
            n == ls@.len(),
            n > 0,
            1 <= i <= n,
            recs == df_records(text@),
            views(ls@) == lines_of(text@),
            recs.len() == n - 1,
            b0@.map_values(|d: DiskUsage| d@) == ranked(recs.take(i - 1), 0),
            b1@.map_values(|d: DiskUsage| d@) == ranked(recs.take(i - 1), 1),
            b2@.map_values(|d: DiskUsage| d@) == ranked(recs.take(i - 1), 2),
            b3@.map_values(|d: DiskUsage| d@) == ranked(recs.take(i - 1), 3),
        decreases n - i,
    {
        let d = disk_from_line(ls[i].as_str());
        assert(recs[i - 1] == d@);
        assert(recs.take(i as int) =~= recs.take(i - 1).push(d@));
        let ghost prev = recs.take(i - 1);
        proof {
            prev.lemma_filter_push(d@, |x: DiskRecord| relevant(x) && mount_rank(x.mount) == 0);
            prev.lemma_filter_push(d@, |x: DiskRecord| relevant(x) && mount_rank(x.mount) == 1);
            prev.lemma_filter_push(d@, |x: DiskRecord| relevant(x) && mount_rank(x.mount) == 2);
            prev.lemma_filter_push(d@, |x: DiskRecord| relevant(x) && mount_rank(x.mount) == 3);
        }
        if is_relevant(&d) {
            let k = rank_of_mount(d.mount.as_str());
            if k == 0 {
                let ghost before = b0@;
                b0.push(d);
                assert(b0@.map_values(|x: DiskUsage| x@) =~= before.map_values(
                    |x: DiskUsage| x@,
                ).push(b0@.last()@));
            } else if k == 1 {
                let ghost before = b1@;
                b1.push(d);
                assert(b1@.map_values(|x: DiskUsage| x@) =~= before.map_values(
                    |x: DiskUsage| x@,
                ).push(b1@.last()@));
            } else if k == 2 {
                let ghost before = b2@;
                b2.push(d);
                assert(b2@.map_values(|x: DiskUsage| x@) =~= before.map_values(
                    |x: DiskUsage| x@,
                ).push(b2@.last()@));
            } else {
                let ghost before = b3@;
                b3.push(d);
                assert(b3@.map_values(|x: DiskUsage| x@) =~= before.map_values(
                    |x: DiskUsage| x@,
                ).push(b3@.last()@));
            }
        }
        i = i + 1;
    }
    assert(recs.take(n - 1) =~= recs);
    let ghost v0 = b0@;
    let ghost v1 = b1@;
    let ghost v2 = b2@;
    let ghost v3 = b3@;
    b0.append(&mut b1);
    b0.append(&mut b2);
    b0.append(&mut b3);
    assert(b0@ =~= v0 + v1 + v2 + v3);
    assert(b0@.map_values(|d: DiskUsage| d@) =~= v0.map_values(|d: DiskUsage| d@) + v1.map_values(
        |d: DiskUsage| d@,
    ) + v2.map_values(|d: DiskUsage| d@) + v3.map_values(|d: DiskUsage| d@));
    b0
}

proof fn lemma_ranked(ds: Seq<DiskRecord>, k: nat)
    ensures
        forall|i: int|
            0 <= i < ranked(ds, k).len() ==> relevant(#[trigger] ranked(ds, k)[i]) && mount_rank(
                ranked(ds, k)[i].mount,
            ) == k,
{
    broadcast use vstd::seq_lib::group_filter_ensures;

    let pred = |d: DiskRecord| relevant(d) && mount_rank(d.mount) == k;
    assert forall|i: int| 0 <= i < ranked(ds, k).len() implies relevant(
        #[trigger] ranked(ds, k)[i],
    ) && mount_rank(ranked(ds, k)[i].mount) == k by {
        assert(pred(ds.filter(pred)[i]));
    }
}

/// Every listed disk is a relevant one, and the listing puts the root
/// first, then boot, then home, then the rest.
pub proof fn law_listing_relevant_and_ordered(text: Seq<char>)
    ensures
        forall|i: int|
            0 <= i < listed_disks(text).len() ==> relevant(#[trigger] listed_disks(text)[i]),
        forall|i: int, j: int|
            0 <= i < j < listed_disks(text).len() ==> mount_rank(
                #[trigger] listed_disks(text)[i].mount,
            ) <= mount_rank(#[trigger] listed_disks(text)[j].mount),
{
    let ds = df_records(text);
    let (a, b, c, d) = (ranked(ds, 0), ranked(ds, 1), ranked(ds, 2), ranked(ds, 3));
    lemma_ranked(ds, 0);
    lemma_ranked(ds, 1);
    lemma_ranked(ds, 2);
    lemma_ranked(ds, 3);
    let l = listed_disks(text);
    assert(l == a + b + c + d);
    assert forall|i: int| 0 <= i < l.len() implies relevant(#[trigger] l[i]) && mount_rank(
        l[i].mount,
    ) == (if i < a.len() {
        0int
    } else if i < a.len() + b.len() {
        1int
    } else if i < a.len() + b.len() + c.len() {
        2int
    } else {
        3int
    }) by {
        if i < a.len() {
            assert(l[i] == a[i]);
        } else if i < a.len() + b.len() {
            assert(l[i] == b[i - a.len()]);
        } else if i < a.len() + b.len() + c.len() {
            assert(l[i] == c[i - a.len() - b.len()]);
        } else {
            assert(l[i] == d[i - a.len() - b.len() - c.len()]);
        }
    }
}

/// Whether `s` starts with `p`, spelled out for the laws below.
pub open spec fn prefixed(s: Seq<char>, p: Seq<char>) -> bool {
    p.len() <= s.len() && s.subrange(0, p.len() as int) == p
}

/// The columns of a `df` line: source, type, size, used, available, use
/// percentage, mount point. Sizes that do not parse as `u64` count as 0, the
/// `%` signs are dropped from the percentage, and the mount point is the
/// rest of the words joined by single spaces.
pub proof fn law_df_columns(line: Seq<char>)
    ensures
        ({
            let ws = words_of(line);
            let d = disk_of_line(line);
            ws.len() >= 6 ==> {
                &&& d.device == ws[0]
                &&& d.fstype == ws[1]
                &&& parsed_unsigned(ws[2], u64::MAX as nat) matches Some(v) ==> d.total_bytes == v
                &&& parsed_unsigned(ws[2], u64::MAX as nat) is None ==> d.total_bytes == 0
                &&& parsed_unsigned(ws[3], u64::MAX as nat) matches Some(v) ==> d.used_bytes == v
                &&& parsed_unsigned(ws[3], u64::MAX as nat) is None ==> d.used_bytes == 0
                &&& parsed_unsigned(ws[4], u64::MAX as nat) matches Some(v) ==> d.avail_bytes == v
                &&& parsed_unsigned(ws[4], u64::MAX as nat) is None ==> d.avail_bytes == 0
                &&& d.percent_text == strip_trailing(ws[5], '%')
                &&& d.mount == joined(ws.subrange(6, ws.len() as int), " "@)
            }
        }),
{
}

/// Whether a disk is a pseudo, image or system filesystem, or empty: the
/// kinds of filesystem that the listing leaves out.
pub open spec fn pseudo_disk(d: DiskRecord) -> bool {
    ||| d.fstype == "tmpfs"@
    ||| d.fstype == "devtmpfs"@
    ||| d.fstype == "squashfs"@
    ||| d.fstype == "overlay"@
    ||| d.fstype == "efivarfs"@
    ||| d.fstype == "autofs"@
    ||| prefixed(d.mount, "/snap"@)
    ||| prefixed(d.mount, "/run"@)
    ||| prefixed(d.mount, "/proc"@)
    ||| prefixed(d.mount, "/sys"@)
    ||| prefixed(d.mount, "/dev"@)
    ||| d.total_bytes == 0
}

/// No listed disk is a tmpfs, devtmpfs, squashfs, overlay, efivarfs or
/// autofs, none is mounted under /snap, /run, /proc, /sys or /dev, and none
/// is empty.
pub proof fn law_listing_has_no_pseudo_disks(text: Seq<char>)
    ensures
        forall|i: int|
            0 <= i < listed_disks(text).len() ==> !pseudo_disk(#[trigger] listed_disks(text)[i]),
{
    law_listing_relevant_and_ordered(text);
}

/// Every disk of `df`'s data lines that is not a pseudo disk is listed.
pub proof fn law_listing_keeps_real_disks(text: Seq<char>)
    ensures
        forall|i: int|
            0 <= i < df_records(text).len() && !pseudo_disk(#[trigger] df_records(text)[i])
                ==> listed_disks(text).contains(df_records(text)[i]),
{
    broadcast use vstd::seq_lib::group_filter_ensures;

    let ds = df_records(text);
    let l = listed_disks(text);
    assert forall|i: int| 0 <= i < ds.len() && !pseudo_disk(#[trigger] ds[i]) implies l.contains(
        ds[i],
    ) by {
        let r = ds[i];
        let k = mount_rank(r.mount);
        let pred = |d: DiskRecord| relevant(d) && mount_rank(d.mount) == k;
        assert(pred(ds[i]));
        assert(ranked(ds, k).contains(r));
        let (a, b, c, e) = (ranked(ds, 0), ranked(ds, 1), ranked(ds, 2), ranked(ds, 3));
        assert(l == a + b + c + e);
        let j = choose|j: int| 0 <= j < ranked(ds, k).len() && ranked(ds, k)[j] == r;
        if k == 0 {
            assert(l[j] == r);
        } else if k == 1 {
            assert(l[a.len() + j] == r);
        } else if k == 2 {
            assert(l[a.len() + b.len() + j] == r);
        } else {
            assert(l[a.len() + b.len() + c.len() + j] == r);
        }
    }
}

/// The listing shows the root filesystem first, then those under /boot,
/// then those under /home, then the rest: a disk of an earlier group never
/// follows one of a later group.
pub proof fn law_listing_root_boot_home_rest(text: Seq<char>)
    ensures
        forall|i: int, j: int|
            #![trigger listed_disks(text)[i], listed_disks(text)[j]]
            0 <= i < j < listed_disks(text).len() ==> {
                let a = listed_disks(text)[i].mount;
                let b = listed_disks(text)[j].mount;
                &&& b == "/"@ ==> a == "/"@
                &&& b != "/"@ && prefixed(b, "/boot"@) ==> a == "/"@ || prefixed(a, "/boot"@)
                &&& b != "/"@ && !prefixed(b, "/boot"@) && prefixed(b, "/home"@) ==> a == "/"@
                    || prefixed(a, "/boot"@) || prefixed(a, "/home"@)
            },
{
    law_listing_relevant_and_ordered(text);
}

/// The names shown for mount points: the root is "Sistema (/)", mounts
/// under /boot, /home, /mnt and /media are named Boot, Home and Externo
/// (in that order of precedence), others by their mount point.
pub proof fn law_label_names(m: Seq<char>)
    ensures
        m == "/"@ ==> label_text(m) == "Sistema (/)"@,
        m != "/"@ && prefixed(m, "/boot"@) ==> label_text(m) == "Boot · "@ + m,
        m != "/"@ && !prefixed(m, "/boot"@) && prefixed(m, "/home"@) ==> label_text(m)
            == "Home · "@ + m,
        m != "/"@ && !prefixed(m, "/boot"@) && !prefixed(m, "/home"@) && (prefixed(m, "/mnt"@)
            || prefixed(m, "/media"@)) ==> label_text(m) == "Externo · "@ + m,
        m != "/"@ && !prefixed(m, "/boot"@) && !prefixed(m, "/home"@) && !prefixed(m, "/mnt"@)
            && !prefixed(m, "/media"@) ==> label_text(m) == m,
{
}

/// The name shown for a mount point.
pub open spec fn label_text(m: Seq<char>) -> Seq<char> {
    if m == "/"@ {
        "Sistema (/)"@
    } else if begins(m, "/boot"@) {
        "Boot · "@ + m
    } else if begins(m, "/home"@) {
        "Home · "@ + m
    } else if begins(m, "/mnt"@) || begins(m, "/media"@) {
        "Externo · "@ + m
    } else {
        m
    }
}

impl Default for DiskUsage {
    /// An empty record: no texts, all sizes zero.
    fn default() -> (r: DiskUsage)
        ensures
            r@ == (DiskRecord {
                device: Seq::empty(),
                fstype: Seq::empty(),
                mount: Seq::empty(),
                total_bytes: 0,
                used_bytes: 0,
                avail_bytes: 0,
                percent_text: Seq::empty(),
            }),
    {
        DiskUsage {
            device: String::new(),
            fstype: String::new(),
            mount: String::new(),
            total_bytes: 0,
            used_bytes: 0,
            avail_bytes: 0,
            percent_text: String::new(),
        }
    }
}

impl DiskUsage {
    /// The name shown for this filesystem: root, boot, home and external
    /// mounts are named as such, others by their mount point.
    pub fn label(&self) -> (r: String)
        ensures
            r@ == label_text(self.mount@),
    {
        let m = self.mount.as_str();
        if same_text(m, "/") {
            String::from_str("Sistema (/)")
        } else if starts_with(m, "/boot") {
            String::from_str("Boot · ").concat(m)
        } else if starts_with(m, "/home") {
            String::from_str("Home · ").concat(m)
        } else if starts_with(m, "/mnt") || starts_with(m, "/media") {
            String::from_str("Externo · ").concat(m)
        } else {
            self.mount.clone()
        }
    }
}

} // verus!
