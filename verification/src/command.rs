use vstd::prelude::*;

use crate::text::{concat, decimal, decimal_string, views};

verus! {

/// How the player starts `linux-wallpaperengine` (the `[play_command]` table of the configuration).
pub struct PlayCommandConfig {
    pub base_command: String,
    pub log_file: Option<String>,
    pub silent: Option<bool>,
    pub volume: Option<usize>,
    pub noautomute: Option<bool>,
    pub no_audio_processing: Option<bool>,
    pub screen_root: Vec<String>,
    pub window: Option<bool>,
    pub fps: Option<usize>,
    pub assets_dir: Option<String>,
    pub screenshot: Option<bool>,
    pub list_propertites: Option<bool>,
    pub set_property: Option<Vec<String>>,
    pub no_fullscreen_pause: Option<bool>,
    pub disable_mouse: Option<bool>,
    pub scaling: Option<String>,
    pub clamping: Option<String>,
}

/// A program and its arguments.
pub struct CommandLine {
    pub program: String,
    pub args: Vec<String>,
}

/// `[flag]` when the option is set to `true`, nothing otherwise.
pub open spec fn flag_arg(flag: Seq<char>, value: Option<bool>) -> Seq<Seq<char>> {
    if value == Some(true) {
        seq![flag]
    } else {
        Seq::empty()
    }
}

/// `[option, value]` when the value is given, nothing otherwise.
pub open spec fn option_arg(option: Seq<char>, value: Option<Seq<char>>) -> Seq<Seq<char>> {
    match value {
        Some(v) => seq![option, v],
        None => Seq::empty(),
    }
}

/// The text of an optional string.
pub open spec fn opt_view(s: Option<String>) -> Option<Seq<char>> {
    match s {
        Some(t) => Some(t@),
        None => None,
    }
}

/// The text of an optional number.
pub open spec fn opt_decimal(n: Option<usize>) -> Option<Seq<char>> {
    match n {
        Some(v) => Some(decimal(v as nat)),
        None => None,
    }
}

/// The arguments of `linux-wallpaperengine` that play `wallpaper_id` on `screen_root`.
/// Every screen is silent; the volume and audio options are not passed.
pub open spec fn command_args(config: PlayCommandConfig, screen_root: Seq<char>, wallpaper_id: Seq<char>) -> Seq<Seq<char>> {
    option_arg("--scaling"@, opt_view(config.scaling))
        + option_arg("--clamping"@, opt_view(config.clamping))
        + seq!["--screen-root"@, screen_root]
        + seq!["--silent"@]
        + flag_arg("--window"@, config.window)
        + option_arg("--fps"@, opt_decimal(config.fps))
        + option_arg("--assets-dir"@, opt_view(config.assets_dir))
        + flag_arg("--screenshot"@, config.screenshot)
        + flag_arg("--list-propertites"@, config.list_propertites)
        + flag_arg("--no-fullscreen-pause"@, config.no_fullscreen_pause)
        + flag_arg("--disable-mouse"@, config.disable_mouse)
        + seq![wallpaper_id]
}

fn push_str(args: &mut Vec<String>, s: &str)
    ensures
        views(final(args)@) == views(old(args)@).push(s@),
{
    let ghost before = args@;
    args.push(s.to_owned());
    assert(views(args@) =~= views(before).push(s@));
}

fn push_flag(args: &mut Vec<String>, flag: &str, value: Option<bool>)
    ensures
        views(final(args)@) == views(old(args)@) + flag_arg(flag@, value),
{
    let on = match value {
        Some(b) => b,
        None => false,
    };
    if on {
        push_str(args, flag);
        assert(views(old(args)@).push(flag@) =~= views(old(args)@) + seq![flag@]);
    } else {
        assert(views(old(args)@) + Seq::<Seq<char>>::empty() =~= views(old(args)@));
    }
}

fn push_option(args: &mut Vec<String>, option: &str, value: &Option<String>)
    ensures
        views(final(args)@) == views(old(args)@) + option_arg(option@, opt_view(*value)),
{
    match value {
        Some(v) => {
            push_str(args, option);
            push_str(args, v.as_str());
            assert(views(old(args)@).push(option@).push(v@) =~= views(old(args)@) + seq![option@, v@]);
        },
        None => {
            assert(views(old(args)@) + Seq::<Seq<char>>::empty() =~= views(old(args)@));
        },
    }
}

fn push_number(args: &mut Vec<String>, option: &str, value: Option<usize>)
    ensures
        views(final(args)@) == views(old(args)@) + option_arg(option@, opt_decimal(value)),
{
    match value {
        Some(n) => {
            push_str(args, option);
            let text = decimal_string(n as u64);
            let ghost before = args@;
            args.push(text);
            assert(views(args@) =~= views(before).push(decimal(n as nat)));
            assert(views(old(args)@).push(option@).push(decimal(n as nat)) =~= views(old(args)@) + seq![
                option@,
                decimal(n as nat),
            ]);
        },
        None => {
            assert(views(old(args)@) + Seq::<Seq<char>>::empty() =~= views(old(args)@));
        },
    }
}

/// The command that plays `wallpaper_id` on `screen_root`: the configured
/// program with the arguments that the configuration turns on.
pub fn build_command(config: &PlayCommandConfig, screen_root: &str, wallpaper_id: &str) -> (r: CommandLine)
    ensures
        r.program@ == config.base_command@,
        views(r.args@) == command_args(*config, screen_root@, wallpaper_id@),
        config.window == Some(true) ==> views(r.args@).contains("--window"@),
        config.screenshot == Some(true) ==> views(r.args@).contains("--screenshot"@),
        config.list_propertites == Some(true) ==> views(r.args@).contains("--list-propertites"@),
        config.no_fullscreen_pause == Some(true) ==> views(r.args@).contains("--no-fullscreen-pause"@),
        config.disable_mouse == Some(true) ==> views(r.args@).contains("--disable-mouse"@),
{
    let mut args: Vec<String> = Vec::new();
    assert(views(args@) =~= Seq::<Seq<char>>::empty());
    push_option(&mut args, "--scaling", &config.scaling);
    push_option(&mut args, "--clamping", &config.clamping);
    push_str(&mut args, "--screen-root");
    push_str(&mut args, screen_root);
    push_str(&mut args, "--silent");
    push_flag(&mut args, "--window", config.window);
    push_number(&mut args, "--fps", config.fps);
    push_option(&mut args, "--assets-dir", &config.assets_dir);
    push_flag(&mut args, "--screenshot", config.screenshot);
    push_flag(&mut args, "--list-propertites", config.list_propertites);
    push_flag(&mut args, "--no-fullscreen-pause", config.no_fullscreen_pause);
    push_flag(&mut args, "--disable-mouse", config.disable_mouse);
    push_str(&mut args, wallpaper_id);
    proof {
        let c = *config;
        let a0 = Seq::<Seq<char>>::empty();
        let a1 = a0 + option_arg("--scaling"@, opt_view(c.scaling));
        let a2 = a1 + option_arg("--clamping"@, opt_view(c.clamping));
        let a3 = a2.push("--screen-root"@).push(screen_root@).push("--silent"@);
        assert(a0 + option_arg("--scaling"@, opt_view(c.scaling)) =~= option_arg("--scaling"@, opt_view(c.scaling)));
        assert(a3 =~= a2 + seq!["--screen-root"@, screen_root@] + seq!["--silent"@]);
        assert(views(args@) == command_args(c, screen_root@, wallpaper_id@));
        lemma_command_args_pass_options(c, screen_root@, wallpaper_id@);
    }
    CommandLine { program: config.base_command.clone(), args }
}

/// Whether `option` is passed in `args` immediately followed by `value`.
pub open spec fn passes_value(args: Seq<Seq<char>>, option: Seq<char>, value: Seq<char>) -> bool {
    exists|i: int| 0 <= i && i + 1 < args.len() && #[trigger] args[i] == option && args[i + 1] == value
}

/// What is passed in one part of the arguments is passed in all of them.
proof fn lemma_passed_in_parts(a: Seq<Seq<char>>, b: Seq<Seq<char>>)
    ensures
        forall|x: Seq<char>| #[trigger] (a + b).contains(x) <==> a.contains(x) || b.contains(x),
        forall|o: Seq<char>, v: Seq<char>|
            passes_value(a, o, v) || passes_value(b, o, v) ==> #[trigger] passes_value(a + b, o, v),
{
    assert forall|x: Seq<char>| #[trigger] (a + b).contains(x) <==> a.contains(x) || b.contains(x) by {
        if (a + b).contains(x) {
            let i = choose|i: int| 0 <= i < (a + b).len() && (a + b)[i] == x;
            if i < a.len() {
                assert(a[i] == x);
            } else {
                assert(b[i - a.len()] == x);
            }
        }
        if a.contains(x) {
            let i = choose|i: int| 0 <= i < a.len() && a[i] == x;
            assert((a + b)[i] == x);
        }
        if b.contains(x) {
            let i = choose|i: int| 0 <= i < b.len() && b[i] == x;
            assert((a + b)[a.len() + i] == x);
        }
    }
    assert forall|o: Seq<char>, v: Seq<char>|
        passes_value(a, o, v) || passes_value(b, o, v) implies #[trigger] passes_value(a + b, o, v) by {
        if passes_value(a, o, v) {
            let i = choose|i: int| 0 <= i && i + 1 < a.len() && #[trigger] a[i] == o && a[i + 1] == v;
            assert((a + b)[i] == o && (a + b)[i + 1] == v);
        } else {
            let i = choose|i: int| 0 <= i && i + 1 < b.len() && #[trigger] b[i] == o && b[i + 1] == v;
            assert((a + b)[a.len() + i] == o && (a + b)[a.len() + i + 1] == v);
        }
    }
}

/// The command line passes what the configuration asks for: every flag option
/// set to `true` is there; every option with a value is there followed by its
/// value (the frame rate in decimal); the screen follows `--screen-root`; every
/// screen is `--silent`; and the wallpaper comes last.
pub proof fn lemma_command_args_pass_options(config: PlayCommandConfig, screen_root: Seq<char>, wallpaper_id: Seq<char>)
    ensures
        command_args(config, screen_root, wallpaper_id).last() == wallpaper_id,
        command_args(config, screen_root, wallpaper_id).contains("--silent"@),
        passes_value(command_args(config, screen_root, wallpaper_id), "--screen-root"@, screen_root),
        config.window == Some(true) ==> command_args(config, screen_root, wallpaper_id).contains("--window"@),
        config.screenshot == Some(true) ==> command_args(config, screen_root, wallpaper_id).contains("--screenshot"@),
        config.list_propertites == Some(true) ==> command_args(config, screen_root, wallpaper_id).contains(
            "--list-propertites"@,
        ),
        config.no_fullscreen_pause == Some(true) ==> command_args(config, screen_root, wallpaper_id).contains(
            "--no-fullscreen-pause"@,
        ),
        config.disable_mouse == Some(true) ==> command_args(config, screen_root, wallpaper_id).contains(
            "--disable-mouse"@,
        ),
        config.scaling matches Some(v) ==> passes_value(
            command_args(config, screen_root, wallpaper_id),
            "--scaling"@,
            v@,
        ),
        config.clamping matches Some(v) ==> passes_value(
            command_args(config, screen_root, wallpaper_id),
            "--clamping"@,
            v@,
        ),
        config.assets_dir matches Some(v) ==> passes_value(
            command_args(config, screen_root, wallpaper_id),
            "--assets-dir"@,
            v@,
        ),
        config.fps matches Some(n) ==> passes_value(
            command_args(config, screen_root, wallpaper_id),
            "--fps"@,
            decimal(n as nat),
        ),
{
    let p1 = option_arg("--scaling"@, opt_view(config.scaling));
    let p2 = option_arg("--clamping"@, opt_view(config.clamping));
    let p3 = seq!["--screen-root"@, screen_root];
    let p4 = seq!["--silent"@];
    let p5 = flag_arg("--window"@, config.window);
    let p6 = option_arg("--fps"@, opt_decimal(config.fps));
    let p7 = option_arg("--assets-dir"@, opt_view(config.assets_dir));
    let p8 = flag_arg("--screenshot"@, config.screenshot);
    let p9 = flag_arg("--list-propertites"@, config.list_propertites);
    let p10 = flag_arg("--no-fullscreen-pause"@, config.no_fullscreen_pause);
    let p11 = flag_arg("--disable-mouse"@, config.disable_mouse);
    let p12 = seq![wallpaper_id];
    let a2 = p1 + p2;
    let a3 = a2 + p3;
    let a4 = a3 + p4;
    let a5 = a4 + p5;
    let a6 = a5 + p6;
    let a7 = a6 + p7;
    let a8 = a7 + p8;
    let a9 = a8 + p9;
    let a10 = a9 + p10;
    let a11 = a10 + p11;
    let a12 = a11 + p12;
    assert(a12 == command_args(config, screen_root, wallpaper_id));
    lemma_passed_in_parts(p1, p2);
    lemma_passed_in_parts(a2, p3);
    lemma_passed_in_parts(a3, p4);
    lemma_passed_in_parts(a4, p5);
    lemma_passed_in_parts(a5, p6);
    lemma_passed_in_parts(a6, p7);
    lemma_passed_in_parts(a7, p8);
    lemma_passed_in_parts(a8, p9);
    lemma_passed_in_parts(a9, p10);
    lemma_passed_in_parts(a10, p11);
    lemma_passed_in_parts(a11, p12);
    assert(p3[0] == "--screen-root"@ && p3[1] == screen_root);
    assert(passes_value(p3, "--screen-root"@, screen_root));
    assert(p4[0] == "--silent"@);
    assert(p12[0] == wallpaper_id);
    if config.window == Some(true) {
        assert(p5[0] == "--window"@);
    }
    if config.screenshot == Some(true) {
        assert(p8[0] == "--screenshot"@);
    }
    if config.list_propertites == Some(true) {
        assert(p9[0] == "--list-propertites"@);
    }
    if config.no_fullscreen_pause == Some(true) {
        assert(p10[0] == "--no-fullscreen-pause"@);
    }
    if config.disable_mouse == Some(true) {
        assert(p11[0] == "--disable-mouse"@);
    }
    if let Some(v) = config.scaling {
        assert(p1[0] == "--scaling"@ && p1[1] == v@);
        assert(passes_value(p1, "--scaling"@, v@));
    }
    if let Some(v) = config.clamping {
        assert(p2[0] == "--clamping"@ && p2[1] == v@);
        assert(passes_value(p2, "--clamping"@, v@));
    }
    if let Some(v) = config.assets_dir {
        assert(p7[0] == "--assets-dir"@ && p7[1] == v@);
        assert(passes_value(p7, "--assets-dir"@, v@));
    }
    if let Some(n) = config.fps {
        assert(p6[0] == "--fps"@ && p6[1] == decimal(n as nat));
        assert(passes_value(p6, "--fps"@, decimal(n as nat)));
    }
}

/// The file that receives the output of `linux-wallpaperengine`.
pub open spec fn spec_log_file(config: PlayCommandConfig) -> Seq<char> {
    match config.log_file {
        Some(f) => f@,
        None => "./linux_wallpaperengine.log"@,
    }
}

/// The file that receives the output of `linux-wallpaperengine`: the configured
/// one, or `./linux_wallpaperengine.log`.
pub fn log_file(config: &PlayCommandConfig) -> (r: String)
    ensures
        r@ == spec_log_file(*config),
{
    match &config.log_file {
        Some(f) => f.clone(),
        None => "./linux_wallpaperengine.log".to_owned(),
    }
}

/// The options of `linux-wallpaperengine` for playing on several screens, the
/// first of which may have sound.
pub struct LinuxWallpaperengineConfig {
    pub screen_root: Option<Vec<String>>,
    pub scaling: Option<String>,
    pub clamping: Option<String>,
    pub silent: bool,
    pub volume: Option<u32>,
    pub noautomute: bool,
    pub window: bool,
    pub fps: Option<u32>,
    pub assets_dir: Option<String>,
    pub screenshot: bool,
    pub list_properties: bool,
    /// Properties to set, as (name, value), in the order in which they are passed.
    pub set_property: Option<Vec<(String, String)>>,
    pub no_fullscreen_pause: bool,
    pub disable_mouse: bool,
}

/// `[flag]` when `on`.
pub open spec fn bool_arg(flag: Seq<char>, on: bool) -> Seq<Seq<char>> {
    if on {
        seq![flag]
    } else {
        Seq::empty()
    }
}

/// The text of an optional `u32`.
pub open spec fn opt_decimal32(n: Option<u32>) -> Option<Seq<char>> {
    match n {
        Some(v) => Some(decimal(v as nat)),
        None => None,
    }
}

/// `--set-property name=value` for each property, in order.
pub open spec fn property_args(props: Seq<(String, String)>) -> Seq<Seq<char>>
    decreases props.len(),
{
    if props.len() == 0 {
        Seq::empty()
    } else {
        seq!["--set-property"@, props[0].0@ + "="@ + props[0].1@] + property_args(props.drop_first())
    }
}

/// The sound options: the first screen may play sound, the others are silent.
pub open spec fn sound_args(config: LinuxWallpaperengineConfig, screen_index: nat) -> Seq<Seq<char>> {
    if screen_index == 0 {
        bool_arg("--silent"@, config.silent)
            + option_arg("--volume"@, opt_decimal32(config.volume))
            + (if config.noautomute {
            seq!["--noautomute"@, "--no-audio-processing"@]
        } else {
            Seq::empty()
        })
    } else {
        seq!["--silent"@]
    }
}

/// The arguments of `linux-wallpaperengine` for wallpaper `id` on the screen
/// `screen_root`, the `screen_index`-th of the configured screens.
pub open spec fn screen_root_args(
    config: LinuxWallpaperengineConfig,
    screen_root: Seq<char>,
    screen_index: nat,
    id: Seq<char>,
) -> Seq<Seq<char>> {
    option_arg("--scaling"@, opt_view(config.scaling))
        + option_arg("--clamping"@, opt_view(config.clamping))
        + seq!["--screen-root"@, screen_root]
        + sound_args(config, screen_index)
        + bool_arg("--window"@, config.window)
        + option_arg("--fps"@, opt_decimal32(config.fps))
        + option_arg("--assets-dir"@, opt_view(config.assets_dir))
        + bool_arg("--screenshot"@, config.screenshot)
        + bool_arg("--list-propertites"@, config.list_properties)
        + (match config.set_property {
        Some(props) => property_args(props@),
        None => Seq::empty(),
    })
        + bool_arg("--no-fullscreen-pause"@, config.no_fullscreen_pause)
        + bool_arg("--disable-mouse"@, config.disable_mouse)
        + seq![id]
}

fn push_bool(args: &mut Vec<String>, flag: &str, on: bool)
    ensures
        views(final(args)@) == views(old(args)@) + bool_arg(flag@, on),
{
    if on {
        push_flag(args, flag, Some(true));
    } else {
        push_flag(args, flag, None);
    }
}

fn push_number32(args: &mut Vec<String>, option: &str, value: Option<u32>)
    ensures
        views(final(args)@) == views(old(args)@) + option_arg(option@, opt_decimal32(value)),
{
    match value {
        Some(n) => push_number(args, option, Some(n as usize)),
        None => push_number(args, option, None),
    }
}

fn push_properties(args: &mut Vec<String>, props: &Vec<(String, String)>)
    ensures
        views(final(args)@) == views(old(args)@) + property_args(props@),
{
    let mut i: usize = 0;
    assert(props@.skip(0) =~= props@);
    while i < props.len()
        invariant
            i <= props.len(),
            views(old(args)@) + property_args(props@) == views(args@) + property_args(props@.skip(i as int)),
        decreases props.len() - i,
    {
        let ghost before = views(args@);
        let ghost rest = props@.skip(i as int);
        assert(rest.drop_first() =~= props@.skip(i + 1));
        assert(rest[0] == props@[i as int]);
        push_str(args, "--set-property");
        let with_eq = concat(props[i].0.as_str(), "=");
        let setting = concat(with_eq.as_str(), props[i].1.as_str());
        push_str(args, setting.as_str());
        assert(before + (seq!["--set-property"@, setting@] + property_args(rest.drop_first()))
            =~= views(args@) + property_args(rest.drop_first()));
        i = i + 1;
    }
    assert(props@.skip(props.len() as int) =~= Seq::<(String, String)>::empty());
    assert(views(args@) + Seq::<Seq<char>>::empty() =~= views(args@));
}

/// The command that plays wallpaper `id` on `screen_root`, the `screen_index`-th screen.
#[verifier::spinoff_prover]
#[verifier::rlimit(40)]
pub fn screen_root_command(
    config: &LinuxWallpaperengineConfig,
    screen_root: &str,
    screen_index: usize,
    id: &str,
) -> (r: CommandLine)
    ensures
        r.program@ == "linux-wallpaperengine"@,
        views(r.args@) == screen_root_args(*config, screen_root@, screen_index as nat, id@),
{
    let mut args: Vec<String> = Vec::new();
    let ghost a0 = views(args@);
    assert(a0 =~= Seq::<Seq<char>>::empty());
    push_option(&mut args, "--scaling", &config.scaling);
    push_option(&mut args, "--clamping", &config.clamping);
    push_str(&mut args, "--screen-root");
    push_str(&mut args, screen_root);
    let ghost a1 = views(args@);
    if screen_index == 0 {
        push_bool(&mut args, "--silent", config.silent);
        push_number32(&mut args, "--volume", config.volume);
        if config.noautomute {
            push_str(&mut args, "--noautomute");
            push_str(&mut args, "--no-audio-processing");
        }
    } else {
        push_str(&mut args, "--silent");
    }
    proof {
        let c = *config;
        if screen_index == 0 {
            if c.noautomute {
                assert(views(args@) =~= a1 + bool_arg("--silent"@, c.silent) + option_arg(
                    "--volume"@,
                    opt_decimal32(c.volume),
                ) + seq!["--noautomute"@, "--no-audio-processing"@]);
            } else {
                assert(views(args@) =~= a1 + bool_arg("--silent"@, c.silent) + option_arg(
                    "--volume"@,
                    opt_decimal32(c.volume),
                ) + Seq::<Seq<char>>::empty());
            }
        } else {
            assert(views(args@) =~= a1 + seq!["--silent"@]);
        }
        assert(views(args@) =~= a1 + sound_args(c, screen_index as nat));
    }
    push_bool(&mut args, "--window", config.window);
    push_number32(&mut args, "--fps", config.fps);
    push_option(&mut args, "--assets-dir", &config.assets_dir);
    push_bool(&mut args, "--screenshot", config.screenshot);
    push_bool(&mut args, "--list-propertites", config.list_properties);
    let ghost a2 = views(args@);
    match &config.set_property {
        Some(props) => push_properties(&mut args, props),
        None => {
            assert(a2 + Seq::<Seq<char>>::empty() =~= a2);
        },
    }
    push_bool(&mut args, "--no-fullscreen-pause", config.no_fullscreen_pause);
    push_bool(&mut args, "--disable-mouse", config.disable_mouse);
    push_str(&mut args, id);
    proof {
        let c = *config;
        assert(a0 + option_arg("--scaling"@, opt_view(c.scaling)) =~= option_arg("--scaling"@, opt_view(c.scaling)));
        assert(a1 =~= option_arg("--scaling"@, opt_view(c.scaling)) + option_arg("--clamping"@, opt_view(c.clamping))
            + seq!["--screen-root"@, screen_root@]);
    }
    CommandLine { program: "linux-wallpaperengine".to_owned(), args }
}

/// The file that receives the output on one screen: `<log>_in_<screen_root>`.
pub fn screen_log_path(log_path: &str, screen_root: &str) -> (r: String)
    ensures
        r@ == log_path@ + "_in_"@ + screen_root@,
{
    let a = concat(log_path, "_in_");
    concat(a.as_str(), screen_root)
}

} // verus!
