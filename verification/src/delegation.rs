use vstd::prelude::*;

use crate::app_ports::{opt_view, PortsCmd};
use crate::text::{dec_str, u32_to_string, u64_to_string};

verus! {

/// Whether the session must be delegated to the companion executable on
/// the native host: inside a Linux compatibility layer, unless native
/// serial access was explicitly requested.
pub fn should_delegate(wsl: bool, native_serial_port: bool) -> (r: bool)
    ensures
        r == (wsl && !native_serial_port),
{
    wsl && !native_serial_port
}

/// A flag with its value, or nothing.
pub open spec fn opt_flag_arg(flag: Seq<char>, v: Option<Seq<char>>) -> Seq<Seq<char>> {
    match v {
        Option::Some(x) => seq![flag, x],
        Option::None => Seq::empty(),
    }
}

/// A bare flag, or nothing.
pub open spec fn opt_flag(flag: Seq<char>, on: bool) -> Seq<Seq<char>> {
    if on {
        seq![flag]
    } else {
        Seq::empty()
    }
}

/// Appends `flag value` when a value is there.
fn push_opt_flag_arg(args: &mut Vec<String>, flag: &str, v: &Option<String>)
    ensures
        final(args)@.len() >= old(args)@.len(),
        final(args).deep_view() == old(args).deep_view() + opt_flag_arg(flag@, opt_view(*v)),
{
    match v {
        Option::Some(x) => {
            args.push(flag.to_owned());
            args.push(x.clone());
            proof {
                assert(args.deep_view() =~= old(args).deep_view() + opt_flag_arg(
                    flag@,
                    opt_view(*v),
                ));
            }
        },
        Option::None => {
            proof {
                assert(args.deep_view() =~= old(args).deep_view() + opt_flag_arg(
                    flag@,
                    opt_view(*v),
                ));
            }
        },
    }
}

/// The arguments with which the monitor command is forwarded to the
/// companion executable: the subcommand, the application folder and the
/// baud rate, then the optional port, vendor id, reconnection and logging
/// flags, exactly as they were given.
pub open spec fn monitor_delegation_args(
    app_folder: Seq<char>,
    port: Option<Seq<char>>,
    baud: int,
    no_reconnect: bool,
    log: bool,
    log_folder: Seq<char>,
    vid: Option<Seq<char>>,
) -> Seq<Seq<char>> {
    let base = seq!["monitor"@, app_folder, "-b"@, dec_str(baud)];
    let with_port = base + opt_flag_arg("-p"@, port);
    let with_vid = with_port + opt_flag_arg("-v"@, vid);
    let with_reconnect = with_vid + opt_flag("-n"@, no_reconnect);
    with_reconnect + (if log {
        seq!["-l"@, "-g"@, log_folder]
    } else {
        Seq::empty()
    })
}

/// Builds the forwarded monitor arguments, as `monitor_delegation_args`
/// describes.
pub fn build_monitor_delegation_args(
    app_folder: &String,
    port: &Option<String>,
    baud: u32,
    no_reconnect: bool,
    log: bool,
    log_folder: &String,
    vid: &Option<String>,
) -> (r: Vec<String>)
    ensures
        r.deep_view() == monitor_delegation_args(
            app_folder@,
            opt_view(*port),
            baud as int,
            no_reconnect,
            log,
            log_folder@,
            opt_view(*vid),
        ),
{
    let mut args: Vec<String> = Vec::new();
    args.push("monitor".to_owned());
    args.push(app_folder.clone());
    args.push("-b".to_owned());
    args.push(u32_to_string(baud));
    let ghost base = seq!["monitor"@, app_folder@, "-b"@, dec_str(baud as int)];
    proof {
        assert(args.deep_view() =~= base);
    }
    push_opt_flag_arg(&mut args, "-p", port);
    push_opt_flag_arg(&mut args, "-v", vid);
    let ghost with_vid = args.deep_view();
    if no_reconnect {
        args.push("-n".to_owned());
    }
    proof {
        assert(args.deep_view() =~= with_vid + opt_flag("-n"@, no_reconnect));
    }
    let ghost with_reconnect = args.deep_view();
    if log {
        args.push("-l".to_owned());
        args.push("-g".to_owned());
        args.push(log_folder.clone());
        proof {
            assert(args.deep_view() =~= with_reconnect + seq!["-l"@, "-g"@, log_folder@]);
        }
    } else {
        proof {
            assert(args.deep_view() =~= with_reconnect + Seq::<Seq<char>>::empty());
        }
    }
    args
}

/// The arguments with which the port listing is forwarded to the companion
/// executable: every filter the user gave, unchanged, plus the flag that
/// makes the companion use its own native serial ports.
pub open spec fn ports_delegation_args(cmd: PortsCmd) -> Seq<Seq<char>> {
    let base = seq!["ports"@];
    let a1 = base + opt_flag_arg("-p"@, opt_view(cmd.port));
    let a2 = a1 + opt_flag_arg("-v"@, opt_view(cmd.vid));
    let a3 = a2 + opt_flag_arg("-d"@, opt_view(cmd.pid));
    let a4 = a3 + opt_flag_arg("--manufacturer"@, opt_view(cmd.manufacturer));
    let a5 = a4 + opt_flag_arg("--serial"@, opt_view(cmd.serial));
    let a6 = a5 + opt_flag_arg("--product"@, opt_view(cmd.product));
    let a7 = a6 + (match cmd.index {
        Option::Some(i) => seq!["-i"@, dec_str(i as int)],
        Option::None => Seq::empty(),
    });
    let a8 = a7 + opt_flag("-D"@, cmd.debug);
    let a9 = a8 + opt_flag_arg("--preferred-vids"@, opt_view(cmd.preferred_vids));
    a9 + seq!["-n"@]
}

/// Builds the forwarded port-listing arguments, as `ports_delegation_args`
/// describes.
pub fn build_ports_delegation_args(cmd: &PortsCmd) -> (r: Vec<String>)
    ensures
        r.deep_view() == ports_delegation_args(*cmd),
{
    let mut args: Vec<String> = Vec::new();
    args.push("ports".to_owned());
    proof {
        assert(args.deep_view() =~= seq!["ports"@]);
    }
    push_opt_flag_arg(&mut args, "-p", &cmd.port);
    push_opt_flag_arg(&mut args, "-v", &cmd.vid);
    push_opt_flag_arg(&mut args, "-d", &cmd.pid);
    push_opt_flag_arg(&mut args, "--manufacturer", &cmd.manufacturer);
    push_opt_flag_arg(&mut args, "--serial", &cmd.serial);
    push_opt_flag_arg(&mut args, "--product", &cmd.product);
    let ghost a6 = args.deep_view();
    match &cmd.index {
        Option::Some(i) => {
            args.push("-i".to_owned());
            args.push(u64_to_string(*i as u64));
            proof {
                assert(args.deep_view() =~= a6 + seq!["-i"@, dec_str(cmd.index->0 as int)]);
            }
        },
        Option::None => {
            proof {
                assert(args.deep_view() =~= a6 + Seq::<Seq<char>>::empty());
            }
        },
    }
    let ghost a7 = args.deep_view();
    if cmd.debug {
        args.push("-D".to_owned());
    }
    proof {
        assert(args.deep_view() =~= a7 + opt_flag("-D"@, cmd.debug));
    }
    push_opt_flag_arg(&mut args, "--preferred-vids", &cmd.preferred_vids);
    args.push("-n".to_owned());
    proof {
        assert(args.deep_view() =~= ports_delegation_args(*cmd)) by {
            assert(args.deep_view().drop_last() + seq!["-n"@] =~= args.deep_view());
        }
    }
    args
}

/// The arguments with which a flash operation is forwarded to the
/// companion executable: the system type, the optional port and vendor id,
/// the flash baud rate, the optional flash tool, and the flag that makes
/// the companion use its own native serial ports.
pub open spec fn flash_delegation_args(
    sys_type: Seq<char>,
    serial_port: Option<Seq<char>>,
    vid: Option<Seq<char>>,
    flash_baud: int,
    flash_tool: Option<Seq<char>>,
) -> Seq<Seq<char>> {
    let base = seq!["flash"@, "-s"@, sys_type];
    let a1 = base + opt_flag_arg("-p"@, serial_port);
    let a2 = a1 + opt_flag_arg("-v"@, vid);
    let a3 = a2 + seq!["-f"@, dec_str(flash_baud)];
    let a4 = a3 + opt_flag_arg("-t"@, flash_tool);
    a4 + seq!["-n"@]
}

/// Builds the forwarded flash arguments, as `flash_delegation_args`
/// describes.
pub fn build_flash_delegation_args(
    sys_type: &String,
    serial_port: &Option<String>,
    vid: &Option<String>,
    flash_baud: u32,
    flash_tool: &Option<String>,
) -> (r: Vec<String>)
    ensures
        r.deep_view() == flash_delegation_args(
            sys_type@,
            opt_view(*serial_port),
            opt_view(*vid),
            flash_baud as int,
            opt_view(*flash_tool),
        ),
{
    let mut args: Vec<String> = Vec::new();
    args.push("flash".to_owned());
    args.push("-s".to_owned());
    args.push(sys_type.clone());
    proof {
        assert(args.deep_view() =~= seq!["flash"@, "-s"@, sys_type@]);
    }
    push_opt_flag_arg(&mut args, "-p", serial_port);
    push_opt_flag_arg(&mut args, "-v", vid);
    let ghost a2 = args.deep_view();
    args.push("-f".to_owned());
    args.push(u32_to_string(flash_baud));
    proof {
        assert(args.deep_view() =~= a2 + seq!["-f"@, dec_str(flash_baud as int)]);
    }
    push_opt_flag_arg(&mut args, "-t", flash_tool);
    let ghost a4 = args.deep_view();
    args.push("-n".to_owned());
    proof {
        assert(args.deep_view() =~= a4 + seq!["-n"@]);
    }
    args
}

} // verus!
