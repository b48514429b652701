//! Starting a Firecracker machine: where its kernel, disk and sockets are, the
//! configuration file it boots from, and the names of the in-memory disk copy.
use vstd::prelude::*;
use crate::json::{json_quote, json_quoted};
use crate::text::{chars_of, concat2, concat3, decimal, u64_to_decimal, is_whitespace, unicode_whitespace};

verus! {

/// The kernel command line of every machine.
pub open spec fn boot_args() -> Seq<char> {
    "console=ttyS0 reboot=k panic=1 pci=off init=/sbin/init root=/dev/vda rw"@
}

/// The configuration that Firecracker boots a machine from, as `serde_json` writes it
/// pretty (keys in order, two spaces of indentation): one CPU, 128 MiB, the kernel and the
/// root disk given, and a VSOCK device with the machine's context id and socket.
pub open spec fn spec_firecracker_config(kernel_path: Seq<char>, rootfs_path: Seq<char>, cid: u32, vm_dir: Seq<char>) -> Seq<char> {
    "{\n  \"boot-source\": {\n    \"boot_args\": "@ + json_quoted(boot_args()) + ",\n    \"kernel_image_path\": "@
        + json_quoted(kernel_path) + "\n  },\n  \"drives\": [\n    {\n      \"drive_id\": \"rootfs\",\n      \"is_read_only\": false,\n      \"is_root_device\": true,\n      \"path_on_host\": "@
        + json_quoted(rootfs_path)
        + "\n    }\n  ],\n  \"machine-config\": {\n    \"mem_size_mib\": 128,\n    \"smt\": false,\n    \"vcpu_count\": 1\n  },\n  \"vsock\": {\n    \"guest_cid\": "@
        + decimal(cid as nat) + ",\n    \"uds_path\": "@ + json_quoted(vm_dir + "/vsock.sock"@) + "\n  }\n}"@
}

/// The configuration file's text for a machine.
pub fn firecracker_config(kernel_path: &str, rootfs_path: &str, cid: u32, vm_dir: &str) -> (s: String)
    ensures
        s@ == spec_firecracker_config(kernel_path@, rootfs_path@, cid, vm_dir@),
{
    let mut s = String::from_str("{\n  \"boot-source\": {\n    \"boot_args\": ");
    let args = json_quote("console=ttyS0 reboot=k panic=1 pci=off init=/sbin/init root=/dev/vda rw");
    s.append(args.as_str());
    s.append(",\n    \"kernel_image_path\": ");
    let k = json_quote(kernel_path);
    s.append(k.as_str());
    s.append(
        "\n  },\n  \"drives\": [\n    {\n      \"drive_id\": \"rootfs\",\n      \"is_read_only\": false,\n      \"is_root_device\": true,\n      \"path_on_host\": ",
    );
    let r = json_quote(rootfs_path);
    s.append(r.as_str());
    s.append(
        "\n    }\n  ],\n  \"machine-config\": {\n    \"mem_size_mib\": 128,\n    \"smt\": false,\n    \"vcpu_count\": 1\n  },\n  \"vsock\": {\n    \"guest_cid\": ",
    );
    let c = u64_to_decimal(cid as u64);
    s.append(c.as_str());
    s.append(",\n    \"uds_path\": ");
    let uds = concat2(vm_dir, "/vsock.sock");
    let u = json_quote(uds.as_str());
    s.append(u.as_str());
    s.append("\n  }\n}");
    s
}

/// Where a machine's configuration file is written.
pub fn config_path(vm_dir: &str) -> (s: String)
    ensures
        s@ == vm_dir@ + "/firecracker-config.json"@,
{
    concat2(vm_dir, "/firecracker-config.json")
}

/// The socket of Firecracker's own API for a machine.
pub fn api_socket_path(vm_dir: &str) -> (s: String)
    ensures
        s@ == vm_dir@ + "/firecracker.sock"@,
{
    concat2(vm_dir, "/firecracker.sock")
}

/// The name of the in-memory copy of a machine's disk.
pub fn memfd_name(vm_id: &str) -> (s: String)
    ensures
        s@ == "hyperlight_rootfs_"@ + vm_id@,
{
    concat2("hyperlight_rootfs_", vm_id)
}

/// The link through which Firecracker opens that copy.
pub fn rootfs_link_path(vm_id: &str) -> (s: String)
    ensures
        s@ == "/tmp/hyperlight_rootfs_"@ + vm_id@ + ".ext4"@,
{
    concat3("/tmp/hyperlight_rootfs_", vm_id, ".ext4")
}

/// The path under `/proc` of an open file of this process.
pub fn proc_fd_path(fd: i32) -> (s: String)
    requires
        fd >= 0,
    ensures
        s@ == "/proc/self/fd/"@ + decimal(fd as nat),
{
    let n = u64_to_decimal(fd as u64);
    concat2("/proc/self/fd/", n.as_str())
}

/// The error when the kernel image is missing.
pub fn kernel_missing(path: &str) -> (s: String)
    ensures
        s@ == "Kernel image not found at: "@ + path@,
{
    concat2("Kernel image not found at: ", path)
}

/// The error when the root disk image is missing.
pub fn rootfs_missing(path: &str) -> (s: String)
    ensures
        s@ == "Rootfs image not found at: "@ + path@,
{
    concat2("Rootfs image not found at: ", path)
}

/// The argument that names a signal for `kill`.
pub fn signal_argument(signal: &str) -> (s: String)
    ensures
        s@ == "-"@ + signal@,
{
    concat2("-", signal)
}

/// The text with white space taken off both ends (`str::trim`).
pub open spec fn trimmed(s: Seq<char>) -> Seq<char> {
    trim_end(trim_start(s))
}

/// The text with leading white space taken off.
pub open spec fn trim_start(s: Seq<char>) -> Seq<char>
    decreases s.len(),
{
    if s.len() > 0 && unicode_whitespace(s[0]) {
        trim_start(s.drop_first())
    } else {
        s
    }
}

/// The text with trailing white space taken off.
pub open spec fn trim_end(s: Seq<char>) -> Seq<char>
    decreases s.len(),
{
    if s.len() > 0 && unicode_whitespace(s.last()) {
        trim_end(s.drop_last())
    } else {
        s
    }
}

/// The value of a text of decimal digits.
pub open spec fn digits_value(s: Seq<char>) -> int
    decreases s.len(),
{
    if s.len() == 0 {
        0
    } else {
        digits_value(s.drop_last()) * 10 + (s.last() as int - '0' as int)
    }
}

/// Whether every character is a decimal digit.
pub open spec fn all_digits(s: Seq<char>) -> bool {
    forall|i: int| 0 <= i < s.len() ==> '0' <= #[trigger] s[i] && s[i] <= '9'
}

/// What `str::parse::<u32>` gives: an optional `+`, then at least one digit, with a value
/// that fits in 32 bits.
pub open spec fn spec_parse_u32(s: Seq<char>) -> Option<u32> {
    let d = if s.len() > 0 && s[0] == '+' { s.drop_first() } else { s };
    if d.len() > 0 && all_digits(d) && digits_value(d) <= u32::MAX {
        Some(digits_value(d) as u32)
    } else {
        None
    }
}

/// Parses an unsigned 32-bit number.
pub fn parse_u32(t: &Vec<char>, from: usize, to: usize) -> (r: Option<u32>)
    requires
        from <= to <= t@.len(),
    ensures
        r == spec_parse_u32(t@.subrange(from as int, to as int)),
{
    let ghost s = t@.subrange(from as int, to as int);
    let mut start = from;
    if from < to && t[from] == '+' {
        start = from + 1;
    }
    let ghost d = t@.subrange(start as int, to as int);
    assert(d == if s.len() > 0 && s[0] == '+' { s.drop_first() } else { s });
    if start == to {
        return None;
    }
    let mut value: u64 = 0;
    let mut i = start;
    while i < to
        invariant
            from <= start <= i <= to <= t@.len(),
            s == t@.subrange(from as int, to as int),
            d == (if s.len() > 0 && s[0] == '+' { s.drop_first() } else { s }),
            d == t@.subrange(start as int, to as int),
            all_digits(t@.subrange(start as int, i as int)),
            value == digits_value(t@.subrange(start as int, i as int)),
            value <= u32::MAX,
        decreases to - i,
    {
        let c = t[i];
        let ghost prefix = t@.subrange(start as int, i + 1);
        assert(prefix.drop_last() =~= t@.subrange(start as int, i as int));
        if c < '0' || c > '9' {
            assert(!all_digits(d)) by {
                assert(d[i - start] == c);
            }
            return None;
        }
        let digit: u64 = ((c as u32) - ('0' as u32)) as u64;
        let next = value * 10 + digit;
        assert(digits_value(prefix) == value * 10 + digit);
        if next > 4294967295 {
            proof {
                if all_digits(d) {
                    assert(d.subrange(0, i + 1 - start) =~= prefix);
                    lemma_digits_value_grows(d, (i + 1 - start) as int);
                }
            }
            return None;
        }
        value = next;
        i = i + 1;
    }
    assert(t@.subrange(start as int, to as int) =~= d);
    Some(value as u32)
}

/// The part of `v` between `from` and `to` with white space taken off both ends, as the
/// bounds of what is left.
pub fn trim_bounds(v: &Vec<char>, from: usize, to: usize) -> (r: (usize, usize))
    requires
        from <= to <= v@.len(),
    ensures
        from <= r.0 <= r.1 <= to,
        v@.subrange(r.0 as int, r.1 as int) == trimmed(v@.subrange(from as int, to as int)),
{
    let mut a = from;
    while a < to && is_whitespace(v[a])
        invariant
            from <= a <= to <= v@.len(),
            trim_start(v@.subrange(from as int, to as int)) == trim_start(v@.subrange(a as int, to as int)),
        decreases to - a,
    {
        assert(v@.subrange(a as int, to as int).drop_first() =~= v@.subrange(a + 1, to as int));
        a = a + 1;
    }
    assert(trim_start(v@.subrange(a as int, to as int)) == v@.subrange(a as int, to as int));
    let mut b = to;
    while b > a && is_whitespace(v[b - 1])
        invariant
            from <= a <= b <= to <= v@.len(),
            trim_end(v@.subrange(a as int, to as int)) == trim_end(v@.subrange(a as int, b as int)),
        decreases b - a,
    {
        assert(v@.subrange(a as int, b as int).drop_last() =~= v@.subrange(a as int, b - 1));
        b = b - 1;
    }
    assert(trim_end(v@.subrange(a as int, b as int)) == v@.subrange(a as int, b as int));
    (a, b)
}

/// The pieces of a text between newlines, read from `cur` (the piece being read) and
/// `acc` (the pieces already read).
pub open spec fn pieces_from(s: Seq<char>, cur: Seq<char>, acc: Seq<Seq<char>>) -> Seq<Seq<char>>
    decreases s.len(),
{
    if s.len() == 0 {
        acc.push(cur)
    } else if s[0] == '\n' {
        pieces_from(s.drop_first(), Seq::empty(), acc.push(cur))
    } else {
        pieces_from(s.drop_first(), cur.push(s[0]), acc)
    }
}

/// The pieces of a text between newlines (empty ones included).
pub open spec fn newline_pieces(s: Seq<char>) -> Seq<Seq<char>> {
    pieces_from(s, Seq::empty(), Seq::empty())
}

/// The process ids listed in the pieces: each piece, trimmed, that reads as a number.
pub open spec fn spec_pids(pieces: Seq<Seq<char>>) -> Seq<u32>
    decreases pieces.len(),
{
    if pieces.len() == 0 {
        Seq::empty()
    } else {
        let rest = spec_pids(pieces.drop_last());
        match spec_parse_u32(trimmed(pieces.last())) {
            Some(p) => rest.push(p),
            None => rest,
        }
    }
}

/// Whether `pid` is what piece `piece` reads as, trimmed.
pub open spec fn reads_as_pid(piece: Seq<char>, pid: u32) -> bool {
    spec_parse_u32(trimmed(piece)) == Some(pid)
}

/// The listed ids are exactly the pieces that read as numbers: one id per such piece, in
/// the pieces' order, so every such piece's number is listed and every listed id is the
/// number of some piece.
pub proof fn lemma_pids_are_the_numbered_pieces(pieces: Seq<Seq<char>>)
    ensures
        spec_pids(pieces).len() == pieces.filter(|p: Seq<char>| spec_parse_u32(trimmed(p)) is Some).len(),
        forall|i: int|
            0 <= i < pieces.len() && #[trigger] spec_parse_u32(trimmed(pieces[i])) is Some ==> spec_pids(pieces).contains(
                spec_parse_u32(trimmed(pieces[i]))->0,
            ),
        forall|j: int|
            0 <= j < spec_pids(pieces).len() ==> exists|i: int| 0 <= i < pieces.len() && reads_as_pid(#[trigger] pieces[i], #[trigger] spec_pids(pieces)[j]),
    decreases pieces.len(),
{
    reveal_with_fuel(Seq::filter, 1);
    if pieces.len() > 0 {
        let rest = pieces.drop_last();
        let n = pieces.len() - 1;
        lemma_pids_are_the_numbered_pieces(rest);
        let r = spec_pids(rest);
        let all = spec_pids(pieces);
        assert forall|i: int|
            0 <= i < pieces.len() && #[trigger] spec_parse_u32(trimmed(pieces[i])) is Some implies all.contains(
                spec_parse_u32(trimmed(pieces[i]))->0,
            ) by {
            if i < n {
                assert(rest[i] == pieces[i]);
                assert(spec_parse_u32(trimmed(rest[i])) is Some);
                let k = choose|k: int| 0 <= k < r.len() && r[k] == spec_parse_u32(trimmed(rest[i]))->0;
                assert(all[k] == r[k]);
            } else {
                assert(all[all.len() - 1] == spec_parse_u32(trimmed(pieces[i]))->0);
            }
        }
        assert forall|j: int| 0 <= j < all.len() implies exists|i: int| 0 <= i < pieces.len() && reads_as_pid(#[trigger] pieces[i], #[trigger] all[j]) by {
            if j < r.len() {
                let i = choose|i: int| 0 <= i < rest.len() && reads_as_pid(#[trigger] rest[i], #[trigger] r[j]);
                assert(rest[i] == pieces[i]);
                assert(all[j] == r[j]);
                assert(reads_as_pid(pieces[i], all[j]));
            } else {
                assert(reads_as_pid(pieces[n], all[j]));
            }
        }
    }
}

/// The ids of the processes that `pgrep` listed, one per line (lines that are not numbers
/// are passed over).
pub fn listed_pids(output: &str) -> (r: Vec<u32>)
    ensures
        r@ == spec_pids(newline_pieces(output@)),
{
    let v = chars_of(output);
    let mut out: Vec<u32> = Vec::new();
    let ghost mut acc: Seq<Seq<char>> = Seq::empty();
    let mut start: usize = 0;
    let mut i: usize = 0;
    assert(v@.skip(0) =~= v@);
    assert(v@.subrange(0, 0) =~= Seq::<char>::empty());
    while i < v.len()
        invariant
            v@ == output@,
            start <= i <= v@.len(),
            pieces_from(v@.skip(i as int), v@.subrange(start as int, i as int), acc) == newline_pieces(output@),
            out@ == spec_pids(acc),
        decreases v@.len() - i,
    {
        assert(v@.skip(i as int).drop_first() =~= v@.skip(i + 1));
        assert(v@.skip(i as int)[0] == v@[i as int]);
        if v[i] == '\n' {
            let (a, b) = trim_bounds(&v, start, i);
            let ghost piece = v@.subrange(start as int, i as int);
            let ghost before = acc;
            proof {
                acc = acc.push(piece);
                assert(acc.drop_last() =~= before);
                assert(acc.last() == piece);
                assert(trimmed(piece) == v@.subrange(a as int, b as int));
            }
            match parse_u32(&v, a, b) {
                Some(p) => {
                    out.push(p);
                },
                None => {},
            }
            start = i + 1;
            assert(v@.subrange(start as int, i + 1) =~= Seq::<char>::empty());
        } else {
            assert(v@.subrange(start as int, i + 1) =~= v@.subrange(start as int, i as int).push(v@[i as int]));
        }
        i = i + 1;
    }
    assert(v@.skip(i as int) =~= Seq::<char>::empty());
    let (a, b) = trim_bounds(&v, start, i);
    let ghost before = acc;
    proof {
        acc = acc.push(v@.subrange(start as int, i as int));
        assert(acc.drop_last() =~= before);
    }
    match parse_u32(&v, a, b) {
        Some(p) => {
            out.push(p);
        },
        None => {},
    }
    out
}

/// A number's digits are worth at least as much as any first part of them.
pub proof fn lemma_digits_value_grows(s: Seq<char>, n: int)
    requires
        0 <= n <= s.len(),
        all_digits(s),
    ensures
        digits_value(s) >= digits_value(s.subrange(0, n)),
    decreases s.len() - n,
{
    if n < s.len() {
        lemma_digits_value_grows(s, n + 1);
        assert(s.subrange(0, n + 1).drop_last() =~= s.subrange(0, n));
        assert(s.subrange(0, n + 1).last() == s[n]);
        lemma_digits_value_nonnegative(s.subrange(0, n));
    } else {
        assert(s.subrange(0, n) =~= s);
    }
}

/// The value of digits is never negative.
pub proof fn lemma_digits_value_nonnegative(s: Seq<char>)
    requires
        all_digits(s),
    ensures
        digits_value(s) >= 0,
    decreases s.len(),
{
    if s.len() > 0 {
        assert forall|i: int| 0 <= i < s.drop_last().len() implies '0' <= #[trigger] s.drop_last()[i] && s.drop_last()[i] <= '9' by {
            assert(s.drop_last()[i] == s[i]);
        }
        lemma_digits_value_nonnegative(s.drop_last());
    }
}

} // verus!
