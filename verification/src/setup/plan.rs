//! The preview of the commands that set up an interface.
use vstd::prelude::*;

use crate::setup::models::{bitrate_value, CanConfig};
use crate::setup::exec::spec_setup_commands;
use crate::text::{dec_text, join_words, push_dec, push_str};

verus! {

/// The command lines that set up `config`, as printed before running them.
pub open spec fn spec_plan_lines(config: CanConfig) -> Seq<Seq<char>> {
    match config {
        CanConfig::Native(cfg) => seq![
            "sudo ip link set "@ + cfg.iface@ + " up type can bitrate "@ + dec_text(
                bitrate_value(cfg.bitrate) as nat,
            ),
        ],
        CanConfig::Slcan(cfg) => seq![
            "sudo slcand -c -o -f -"@ + cfg.speed.flag@ + " -t hw -S "@ + dec_text(
                cfg.uart_baud as nat,
            ) + " "@ + cfg.tty@ + " "@ + cfg.iface@,
            "sudo ip link set up "@ + cfg.iface@,
        ],
        CanConfig::Virtual(cfg) => seq![
            "sudo ip link add dev "@ + cfg.iface@ + " type vcan"@,
            "sudo ip link set up "@ + cfg.iface@,
            "ip link show "@ + cfg.iface@,
        ],
    }
}

/// The commands that set up `config`, one line each.
pub fn plan_lines(config: &CanConfig) -> (res: Vec<String>)
    ensures
        res@.len() == spec_plan_lines(*config).len(),
        forall|i: int| 0 <= i < res@.len() ==> #[trigger] res@[i]@ == spec_plan_lines(*config)[i],
{
    match config {
        CanConfig::Native(cfg) => {
            let mut line = String::from_str("sudo ip link set ");
            line.append(cfg.iface.as_str());
            line.append(" up type can bitrate ");
            push_dec(&mut line, cfg.bitrate.bitrate() as u64);
            let mut res = Vec::new();
            res.push(line);
            res
        },
        CanConfig::Slcan(cfg) => {
            let mut first = String::from_str("sudo slcand -c -o -f -");
            push_str(&mut first, cfg.speed.flag);
            first.append(" -t hw -S ");
            push_dec(&mut first, cfg.uart_baud as u64);
            first.append(" ");
            first.append(cfg.tty.as_str());
            first.append(" ");
            first.append(cfg.iface.as_str());
            let mut second = String::from_str("sudo ip link set up ");
            second.append(cfg.iface.as_str());
            let mut res = Vec::new();
            res.push(first);
            res.push(second);
            res
        },
        CanConfig::Virtual(cfg) => {
            let mut first = String::from_str("sudo ip link add dev ");
            first.append(cfg.iface.as_str());
            first.append(" type vcan");
            let mut second = String::from_str("sudo ip link set up ");
            second.append(cfg.iface.as_str());
            let mut third = String::from_str("ip link show ");
            third.append(cfg.iface.as_str());
            let mut res = Vec::new();
            res.push(first);
            res.push(second);
            res.push(third);
            res
        },
    }
}

/// `join_words` of a sequence unrolled: every prefix joined is the previous
/// prefix joined, a space, and the next word.
proof fn lemma_join_prefixes(ws: Seq<Seq<char>>)
    ensures
        forall|k: int|
            2 <= k <= ws.len() ==> #[trigger] join_words(ws.take(k)) == join_words(ws.take(k - 1))
                + seq![' '] + ws[k - 1],
        ws.len() >= 1 ==> join_words(ws.take(1)) == ws[0],
        join_words(ws.take(ws.len() as int)) == join_words(ws),
{
    assert forall|k: int| 2 <= k <= ws.len() implies #[trigger] join_words(ws.take(k)) == join_words(
        ws.take(k - 1),
    ) + seq![' '] + ws[k - 1] by {
        assert(ws.take(k).drop_last() =~= ws.take(k - 1));
    }
    assert(ws.take(ws.len() as int) =~= ws);
}

proof fn lemma_native_preview(iface: Seq<char>, bitrate: Seq<char>)
    ensures
        "sudo ip link set "@ + iface + " up type can bitrate "@ + bitrate == join_words(
            seq!["sudo"@, "ip"@, "link"@, "set"@, iface, "up"@, "type"@, "can"@, "bitrate"@, bitrate],
        ),
{
    reveal_strlit("sudo");
    reveal_strlit("ip");
    reveal_strlit("link");
    reveal_strlit("set");
    reveal_strlit("up");
    reveal_strlit("type");
    reveal_strlit("can");
    reveal_strlit("bitrate");
    reveal_strlit("sudo ip link set ");
    reveal_strlit(" up type can bitrate ");
    let ws = seq!["sudo"@, "ip"@, "link"@, "set"@, iface, "up"@, "type"@, "can"@, "bitrate"@, bitrate];
    let sp = seq![' '];
    lemma_join_prefixes(ws);
    assert(join_words(ws) =~= "sudo"@ + sp + "ip"@ + sp + "link"@ + sp + "set"@ + sp + iface + sp
        + "up"@ + sp + "type"@ + sp + "can"@ + sp + "bitrate"@ + sp + bitrate);
    assert(join_words(ws) =~= "sudo ip link set "@ + iface + " up type can bitrate "@ + bitrate);
}

proof fn lemma_slcan_preview(flag: Seq<char>, baud: Seq<char>, tty: Seq<char>, iface: Seq<char>)
    ensures
        "sudo slcand -c -o -f -"@ + flag + " -t hw -S "@ + baud + " "@ + tty + " "@ + iface
            == join_words(
            seq![
                "sudo"@,
                "slcand"@,
                "-c"@,
                "-o"@,
                "-f"@,
                "-"@ + flag,
                "-t"@,
                "hw"@,
                "-S"@,
                baud,
                tty,
                iface,
            ],
        ),
{
    reveal_strlit("sudo");
    reveal_strlit("slcand");
    reveal_strlit("-c");
    reveal_strlit("-o");
    reveal_strlit("-f");
    reveal_strlit("-");
    reveal_strlit("-t");
    reveal_strlit("hw");
    reveal_strlit("-S");
    reveal_strlit(" ");
    reveal_strlit("sudo slcand -c -o -f -");
    reveal_strlit(" -t hw -S ");
    let ws = seq![
        "sudo"@,
        "slcand"@,
        "-c"@,
        "-o"@,
        "-f"@,
        "-"@ + flag,
        "-t"@,
        "hw"@,
        "-S"@,
        baud,
        tty,
        iface,
    ];
    let sp = seq![' '];
    lemma_join_prefixes(ws);
    assert(join_words(ws) =~= "sudo"@ + sp + "slcand"@ + sp + "-c"@ + sp + "-o"@ + sp + "-f"@ + sp
        + ("-"@ + flag) + sp + "-t"@ + sp + "hw"@ + sp + "-S"@ + sp + baud + sp + tty + sp + iface);
    assert(join_words(ws) =~= "sudo slcand -c -o -f -"@ + flag + " -t hw -S "@ + baud + " "@ + tty
        + " "@ + iface);
}

proof fn lemma_up_preview(iface: Seq<char>)
    ensures
        "sudo ip link set up "@ + iface == join_words(
            seq!["sudo"@, "ip"@, "link"@, "set"@, "up"@, iface],
        ),
{
    reveal_strlit("sudo");
    reveal_strlit("ip");
    reveal_strlit("link");
    reveal_strlit("set");
    reveal_strlit("up");
    reveal_strlit("sudo ip link set up ");
    let ws = seq!["sudo"@, "ip"@, "link"@, "set"@, "up"@, iface];
    let sp = seq![' '];
    lemma_join_prefixes(ws);
    assert(join_words(ws) =~= "sudo"@ + sp + "ip"@ + sp + "link"@ + sp + "set"@ + sp + "up"@ + sp
        + iface);
    assert(join_words(ws) =~= "sudo ip link set up "@ + iface);
}

proof fn lemma_virtual_preview(iface: Seq<char>)
    ensures
        "sudo ip link add dev "@ + iface + " type vcan"@ == join_words(
            seq!["sudo"@, "ip"@, "link"@, "add"@, "dev"@, iface, "type"@, "vcan"@],
        ),
        "ip link show "@ + iface == join_words(seq!["ip"@, "link"@, "show"@, iface]),
{
    reveal_strlit("sudo");
    reveal_strlit("ip");
    reveal_strlit("link");
    reveal_strlit("add");
    reveal_strlit("dev");
    reveal_strlit("type");
    reveal_strlit("vcan");
    reveal_strlit("show");
    reveal_strlit("sudo ip link add dev ");
    reveal_strlit(" type vcan");
    reveal_strlit("ip link show ");
    let ws = seq!["sudo"@, "ip"@, "link"@, "add"@, "dev"@, iface, "type"@, "vcan"@];
    let sp = seq![' '];
    lemma_join_prefixes(ws);
    assert(join_words(ws) =~= "sudo"@ + sp + "ip"@ + sp + "link"@ + sp + "add"@ + sp + "dev"@ + sp
        + iface + sp + "type"@ + sp + "vcan"@);
    assert(join_words(ws) =~= "sudo ip link add dev "@ + iface + " type vcan"@);
    let vs = seq!["ip"@, "link"@, "show"@, iface];
    lemma_join_prefixes(vs);
    assert(join_words(vs) =~= "ip"@ + sp + "link"@ + sp + "show"@ + sp + iface);
    assert(join_words(vs) =~= "ip link show "@ + iface);
}

/// The preview shows exactly what runs: each planned line is the
/// corresponding set-up command with its arguments separated by spaces.
pub proof fn law_preview_matches_commands(config: CanConfig)
    ensures
        spec_plan_lines(config).len() == spec_setup_commands(config).len(),
        forall|i: int|
            0 <= i < spec_plan_lines(config).len() ==> #[trigger] spec_plan_lines(config)[i]
                == join_words(spec_setup_commands(config)[i].0),
{
    let plan = spec_plan_lines(config);
    let cmds = spec_setup_commands(config);
    match config {
        CanConfig::Native(cfg) => {
            lemma_native_preview(cfg.iface@, dec_text(bitrate_value(cfg.bitrate) as nat));
        },
        CanConfig::Slcan(cfg) => {
            lemma_slcan_preview(
                cfg.speed.flag@,
                dec_text(cfg.uart_baud as nat),
                cfg.tty@,
                cfg.iface@,
            );
            lemma_up_preview(cfg.iface@);
        },
        CanConfig::Virtual(cfg) => {
            lemma_virtual_preview(cfg.iface@);
            lemma_up_preview(cfg.iface@);
        },
    }
}

} // verus!
