//! The argument vector of one invocation of the downloader, and the
//! environment overlay it runs with.
use vstd::prelude::*;
use crate::options::{container_arg, format_arg, opt_string_view, DownloadOptions};
use crate::text::{decimal_digits, decimal_string, join, join_exec, str_eq, string_views};

verus! {

/// The mathematical value of a `CommandBuilder`.
pub struct CommandView {
    pub binary: Seq<char>,
    pub args: Seq<Seq<char>>,
}

/// Accumulates the arguments of one invocation of the downloader.
pub struct CommandBuilder {
    binary: String,
    args: Vec<String>,
}

impl View for CommandBuilder {
    type V = CommandView;

    closed spec fn view(&self) -> CommandView {
        CommandView { binary: self.binary@, args: string_views(self.args@) }
    }
}

pub open spec fn flag(on: bool, name: Seq<char>) -> Seq<Seq<char>> {
    if on {
        seq![name]
    } else {
        seq![]
    }
}

pub open spec fn opt_pair(value: Option<Seq<char>>, name: Seq<char>) -> Seq<Seq<char>> {
    match value {
        Some(v) => seq![name, v],
        None => seq![],
    }
}

/// The arguments that a set of download options adds, in order.
pub open spec fn options_args(o: DownloadOptions) -> Seq<Seq<char>> {
    selection_args(o) + embedding_args(o) + audio_args(o) + transfer_args(o) + string_views(
        o.extra_args@,
    )
}

#[verifier::opaque]
pub open spec fn selection_args(o: DownloadOptions) -> Seq<Seq<char>> {
    opt_pair(format_arg(o.format), "-f"@) + opt_pair(
        container_arg(o.container),
        "--merge-output-format"@,
    ) + opt_pair(opt_string_view(o.output_template), "-o"@)
}

#[verifier::opaque]
pub open spec fn embedding_args(o: DownloadOptions) -> Seq<Seq<char>> {
    flag(o.embed_thumbnail, "--embed-thumbnail"@) + flag(o.embed_metadata, "--embed-metadata"@)
        + flag(o.embed_subtitles, "--embed-subs"@) + flag(o.extract_audio, "-x"@)
}

pub open spec fn langs_value(langs: Seq<String>) -> Option<Seq<char>> {
    if langs.len() > 0 {
        Some(join(string_views(langs), ","@))
    } else {
        None
    }
}

#[verifier::opaque]
pub open spec fn audio_args(o: DownloadOptions) -> Seq<Seq<char>> {
    opt_pair(opt_string_view(o.audio_format), "--audio-format"@) + opt_pair(
        opt_string_view(o.audio_quality),
        "--audio-quality"@,
    ) + opt_pair(langs_value(o.subtitles_langs@), "--sub-langs"@) + flag(
        o.write_subtitles,
        "--write-subs"@,
    )
}

pub open spec fn count_value(n: Option<u32>) -> Option<Seq<char>> {
    match n {
        Some(n) => Some(decimal_digits(n as nat)),
        None => None,
    }
}

#[verifier::opaque]
pub open spec fn transfer_args(o: DownloadOptions) -> Seq<Seq<char>> {
    flag(o.write_thumbnail, "--write-thumbnail"@) + opt_pair(
        opt_string_view(o.cookies_file),
        "--cookies"@,
    ) + opt_pair(opt_string_view(o.rate_limit), "-r"@) + opt_pair(
        count_value(o.concurrent_fragments),
        "--concurrent-fragments"@,
    )
}

impl CommandBuilder {
    /// `self` with `more` appended to its arguments.
    pub open spec fn extended(v: CommandView, more: Seq<Seq<char>>) -> CommandView {
        CommandView { binary: v.binary, args: v.args + more }
    }

    pub fn new(binary: &str) -> (r: Self)
        ensures
            r@.binary == binary@,
            r@.args.len() == 0,
    {
        CommandBuilder { binary: binary.to_owned(), args: Vec::new() }
    }

    fn push(&mut self, a: String)
        ensures
            final(self)@ == Self::extended(old(self)@, seq![a@]),
    {
        let ghost before = self.args@;
        self.args.push(a);
        assert(string_views(self.args@) =~= string_views(before) + seq![a@]);
    }

    pub fn arg(self, a: &str) -> (r: Self)
        ensures
            r@ == Self::extended(self@, seq![a@]),
    {
        let mut s = self;
        s.push(a.to_owned());
        s
    }

    fn flag_arg(self, name: &str, value: &str) -> (r: Self)
        ensures
            r@ == Self::extended(self@, seq![name@, value@]),
    {
        let ghost v0 = self@;
        let r = self.arg(name).arg(value);
        assert(r@.args =~= v0.args + seq![name@, value@]);
        r
    }

    pub fn args(self, more: &Vec<String>) -> (r: Self)
        ensures
            r@ == Self::extended(self@, string_views(more@)),
    {
        let mut s = self;
        let ghost v0 = s@;
        let mut i: usize = 0;
        while i < more.len()
            invariant
                i <= more@.len(),
                s@ == Self::extended(v0, string_views(more@).take(i as int)),
            decreases more@.len() - i,
        {
            let ghost before = s@;
            s.push(more[i].clone());
            assert(string_views(more@).take(i + 1) =~= string_views(more@).take(i as int) + seq![
                more@[i as int]@,
            ]);
            assert(s@.args =~= v0.args + string_views(more@).take(i + 1));
            i += 1;
        }
        assert(string_views(more@).take(more@.len() as int) =~= string_views(more@));
        s
    }

    pub fn url(self, url: &str) -> (r: Self)
        ensures
            r@ == Self::extended(self@, seq![url@]),
    {
        self.arg(url)
    }

    pub fn json_output(self) -> (r: Self)
        ensures
            r@ == Self::extended(self@, seq!["--dump-json"@]),
    {
        self.arg("--dump-json")
    }

    pub fn skip_download(self) -> (r: Self)
        ensures
            r@ == Self::extended(self@, seq!["--skip-download"@]),
    {
        self.arg("--skip-download")
    }

    pub fn list_formats(self) -> (r: Self)
        ensures
            r@ == Self::extended(self@, seq!["--list-formats"@]),
    {
        self.arg("--list-formats")
    }

    pub fn output(self, path: &str) -> (r: Self)
        ensures
            r@ == Self::extended(self@, seq!["-o"@, path@]),
    {
        self.flag_arg("-o", path)
    }

    pub fn format(self, format: &str) -> (r: Self)
        ensures
            r@ == Self::extended(self@, seq!["-f"@, format@]),
    {
        self.flag_arg("-f", format)
    }

    pub fn extract_audio(self) -> (r: Self)
        ensures
            r@ == Self::extended(self@, seq!["-x"@]),
    {
        self.arg("-x")
    }

    pub fn audio_format(self, format: &str) -> (r: Self)
        ensures
            r@ == Self::extended(self@, seq!["--audio-format"@, format@]),
    {
        self.flag_arg("--audio-format", format)
    }

    pub fn audio_quality(self, quality: &str) -> (r: Self)
        ensures
            r@ == Self::extended(self@, seq!["--audio-quality"@, quality@]),
    {
        self.flag_arg("--audio-quality", quality)
    }

    pub fn embed_thumbnail(self) -> (r: Self)
        ensures
            r@ == Self::extended(self@, seq!["--embed-thumbnail"@]),
    {
        self.arg("--embed-thumbnail")
    }

    pub fn embed_metadata(self) -> (r: Self)
        ensures
            r@ == Self::extended(self@, seq!["--embed-metadata"@]),
    {
        self.arg("--embed-metadata")
    }

    pub fn embed_subtitles(self) -> (r: Self)
        ensures
            r@ == Self::extended(self@, seq!["--embed-subs"@]),
    {
        self.arg("--embed-subs")
    }

    pub fn write_subtitles(self) -> (r: Self)
        ensures
            r@ == Self::extended(self@, seq!["--write-subs"@]),
    {
        self.arg("--write-subs")
    }

    /// `--sub-langs` with the languages joined by commas; nothing for no
    /// languages.
    pub fn subtitles_langs(self, langs: &Vec<String>) -> (r: Self)
        ensures
            r@ == Self::extended(self@, opt_pair(langs_value(langs@), "--sub-langs"@)),
    {
        if langs.len() == 0 {
            assert(self@.args + seq![] =~= self@.args);
            self
        } else {
            let joined = join_exec(langs, ",");
            self.flag_arg("--sub-langs", joined.as_str())
        }
    }

    pub fn write_thumbnail(self) -> (r: Self)
        ensures
            r@ == Self::extended(self@, seq!["--write-thumbnail"@]),
    {
        self.arg("--write-thumbnail")
    }

    pub fn cookies_file(self, path: &str) -> (r: Self)
        ensures
            r@ == Self::extended(self@, seq!["--cookies"@, path@]),
    {
        self.flag_arg("--cookies", path)
    }

    pub fn cookies_file_opt(self, path: Option<&String>) -> (r: Self)
        ensures
            r@ == Self::extended(
                self@,
                opt_pair(
                    match path {
                        Some(p) => Some(p@),
                        None => None,
                    },
                    "--cookies"@,
                ),
            ),
    {
        match path {
            Some(p) => self.cookies_file(p.as_str()),
            None => {
                assert(self@.args + seq![] =~= self@.args);
                self
            },
        }
    }

    pub fn rate_limit(self, limit: &str) -> (r: Self)
        ensures
            r@ == Self::extended(self@, seq!["-r"@, limit@]),
    {
        self.flag_arg("-r", limit)
    }

    pub fn concurrent_fragments(self, count: u32) -> (r: Self)
        ensures
            r@ == Self::extended(
                self@,
                seq!["--concurrent-fragments"@, decimal_digits(count as nat)],
            ),
    {
        let n = decimal_string(count as u64);
        self.flag_arg("--concurrent-fragments", n.as_str())
    }

    pub fn merge_output_format(self, format: &str) -> (r: Self)
        ensures
            r@ == Self::extended(self@, seq!["--merge-output-format"@, format@]),
    {
        self.flag_arg("--merge-output-format", format)
    }

    pub fn progress_template(self, template: &str) -> (r: Self)
        ensures
            r@ == Self::extended(self@, seq!["--progress-template"@, template@]),
    {
        self.flag_arg("--progress-template", template)
    }

    pub fn newline_progress(self) -> (r: Self)
        ensures
            r@ == Self::extended(self@, seq!["--newline"@]),
    {
        self.arg("--newline")
    }

    pub fn no_warnings(self) -> (r: Self)
        ensures
            r@ == Self::extended(self@, seq!["--no-warnings"@]),
    {
        self.arg("--no-warnings")
    }

    pub fn flat_playlist(self) -> (r: Self)
        ensures
            r@ == Self::extended(self@, seq!["--flat-playlist"@]),
    {
        self.arg("--flat-playlist")
    }

    pub fn yes_playlist(self) -> (r: Self)
        ensures
            r@ == Self::extended(self@, seq!["--yes-playlist"@]),
    {
        self.arg("--yes-playlist")
    }

    pub fn no_playlist(self) -> (r: Self)
        ensures
            r@ == Self::extended(self@, seq!["--no-playlist"@]),
    {
        self.arg("--no-playlist")
    }

    pub fn ffmpeg_location(self, path: &str) -> (r: Self)
        ensures
            r@ == Self::extended(self@, seq!["--ffmpeg-location"@, path@]),
    {
        self.flag_arg("--ffmpeg-location", path)
    }

    fn with_opt_pair(self, name: &str, value: &Option<String>) -> (r: Self)
        ensures
            r@ == Self::extended(self@, opt_pair(opt_string_view(*value), name@)),
    {
        match value {
            Some(v) => self.flag_arg(name, v.as_str()),
            None => {
                assert(self@.args + seq![] =~= self@.args);
                self
            },
        }
    }

    fn with_flag(self, on: bool, name: &str) -> (r: Self)
        ensures
            r@ == Self::extended(self@, flag(on, name@)),
    {
        if on {
            self.arg(name)
        } else {
            assert(self@.args + seq![] =~= self@.args);
            self
        }
    }

    fn with_selection(self, o: &DownloadOptions) -> (r: Self)
        ensures
            r@ == Self::extended(self@, selection_args(*o)),
    {
        reveal(selection_args);
        let ghost v0 = self@;
        let s = self.with_opt_pair("-f", &o.format.as_arg());
        let s = match o.container.as_str() {
            Some(c) => s.merge_output_format(c),
            None => {
                assert(s@.args + seq![] =~= s@.args);
                s
            },
        };
        let s = s.with_opt_pair("-o", &o.output_template);
        assert(s@.args =~= v0.args + selection_args(*o));
        s
    }

    fn with_embedding(self, o: &DownloadOptions) -> (r: Self)
        ensures
            r@ == Self::extended(self@, embedding_args(*o)),
    {
        reveal(embedding_args);
        let ghost v0 = self@;
        let s = self.with_flag(o.embed_thumbnail, "--embed-thumbnail");
        let s = s.with_flag(o.embed_metadata, "--embed-metadata");
        let s = s.with_flag(o.embed_subtitles, "--embed-subs");
        let s = s.with_flag(o.extract_audio, "-x");
        assert(s@.args =~= v0.args + embedding_args(*o));
        s
    }

    fn with_audio(self, o: &DownloadOptions) -> (r: Self)
        ensures
            r@ == Self::extended(self@, audio_args(*o)),
    {
        reveal(audio_args);
        let ghost v0 = self@;
        let s = self.with_opt_pair("--audio-format", &o.audio_format);
        let s = s.with_opt_pair("--audio-quality", &o.audio_quality);
        let s = s.subtitles_langs(&o.subtitles_langs);
        let s = s.with_flag(o.write_subtitles, "--write-subs");
        assert(s@.args =~= v0.args + audio_args(*o));
        s
    }

    fn with_transfer(self, o: &DownloadOptions) -> (r: Self)
        ensures
            r@ == Self::extended(self@, transfer_args(*o)),
    {
        reveal(transfer_args);
        let ghost v0 = self@;
        let s = self.with_flag(o.write_thumbnail, "--write-thumbnail");
        let s = s.with_opt_pair("--cookies", &o.cookies_file);
        let s = s.with_opt_pair("-r", &o.rate_limit);
        let s = match o.concurrent_fragments {
            Some(n) => s.concurrent_fragments(n),
            None => {
                assert(s@.args + seq![] =~= s@.args);
                s
            },
        };
        assert(s@.args =~= v0.args + transfer_args(*o));
        s
    }

    /// Appends the arguments that `options` asks for.
    pub fn with_options(self, options: &DownloadOptions) -> (r: Self)
        ensures
            r@ == Self::extended(self@, options_args(*options)),
    {
        let ghost v0 = self@;
        let s = self.with_selection(options).with_embedding(options).with_audio(options);
        let s = s.with_transfer(options).args(&options.extra_args);
        assert(s@.args =~= v0.args + options_args(*options));
        s
    }

    pub fn get_args(&self) -> (r: &[String])
        ensures
            string_views(r@) == self@.args,
    {
        self.args.as_slice()
    }

    pub fn get_binary(&self) -> (r: &str)
        ensures
            r@ == self@.binary,
    {
        self.binary.as_str()
    }
}

/// One variable of an environment overlay.
pub struct EnvVar {
    pub key: String,
    pub value: String,
}

pub open spec fn env_views(v: Seq<EnvVar>) -> Seq<(Seq<char>, Seq<char>)> {
    Seq::new(v.len(), |i: int| (v[i].key@, v[i].value@))
}

/// The variables that a list of assignments sets; a later assignment of a
/// name overrides an earlier one.
pub open spec fn env_map(v: Seq<(Seq<char>, Seq<char>)>) -> Map<Seq<char>, Seq<char>>
    decreases v.len(),
{
    if v.len() == 0 {
        Map::empty()
    } else {
        env_map(v.drop_last()).insert(v.last().0, v.last().1)
    }
}

/// The environment that the tool runs with, on top of the inherited one:
/// when `PATH_PREPEND` is set, `PATH` becomes its value, a colon and
/// `current_path`; `PATH_PREPEND` itself is not passed on; every other
/// variable is passed as it stands (an explicit `PATH` among them wins).
pub open spec fn overlay_of(env: Map<Seq<char>, Seq<char>>, current_path: Seq<char>) -> Map<
    Seq<char>,
    Seq<char>,
> {
    let rest = env.remove("PATH_PREPEND"@);
    if env.contains_key("PATH_PREPEND"@) {
        Map::empty().insert("PATH"@, env["PATH_PREPEND"@] + ":"@ + current_path).union_prefer_right(
            rest,
        )
    } else {
        rest
    }
}

proof fn lemma_env_map_step(v: Seq<(Seq<char>, Seq<char>)>, i: int)
    requires
        0 <= i < v.len(),
    ensures
        env_map(v.take(i + 1)) == env_map(v.take(i)).insert(v[i].0, v[i].1),
{
    assert(v.take(i + 1).drop_last() == v.take(i));
}

/// The value that `vars` gives `key`, the last assignment winning.
pub fn env_lookup<'a>(vars: &'a Vec<EnvVar>, key: &str) -> (r: Option<&'a String>)
    ensures
        match r {
            Some(v) => env_map(env_views(vars@)).contains_key(key@)
                && env_map(env_views(vars@))[key@] == v@,
            None => !env_map(env_views(vars@)).contains_key(key@),
        },
{
    let ghost ev = env_views(vars@);
    let mut found: Option<&String> = None;
    let mut i: usize = 0;
    assert(ev.take(0) =~= Seq::<(Seq<char>, Seq<char>)>::empty());
    while i < vars.len()
        invariant
            ev == env_views(vars@),
            i <= vars@.len(),
            match found {
                Some(v) => env_map(ev.take(i as int)).contains_key(key@)
                    && env_map(ev.take(i as int))[key@] == v@,
                None => !env_map(ev.take(i as int)).contains_key(key@),
            },
        decreases vars@.len() - i,
    {
        proof {
            lemma_env_map_step(ev, i as int);
        }
        if str_eq(vars[i].key.as_str(), key) {
            found = Some(&vars[i].value);
        }
        i += 1;
    }
    assert(ev.take(vars@.len() as int) == ev);
    found
}

/// The variables to set for one invocation (see `overlay_of`), given the
/// inherited value of `PATH`.
pub fn env_overlay(vars: &Vec<EnvVar>, current_path: &str) -> (r: Vec<EnvVar>)
    ensures
        env_map(env_views(r@)) == overlay_of(env_map(env_views(vars@)), current_path@),
{
    let ghost ev = env_views(vars@);
    let ghost env = env_map(ev);
    let ghost pp = "PATH_PREPEND"@;
    let mut out: Vec<EnvVar> = Vec::new();
    let ghost base: Map<Seq<char>, Seq<char>> = Map::empty();
    match env_lookup(vars, "PATH_PREPEND") {
        Some(prefix) => {
            let mut path = prefix.clone();
            path.append(":");
            path.append(current_path);
            out.push(EnvVar { key: "PATH".to_owned(), value: path });
            proof {
                base = Map::empty().insert("PATH"@, env[pp] + ":"@ + current_path@);
                assert(env_views(out@).drop_last() =~= Seq::<(Seq<char>, Seq<char>)>::empty());
                assert(env_views(out@).last() == ("PATH"@, env[pp] + ":"@ + current_path@));
                let ghost no_vars = Seq::<(Seq<char>, Seq<char>)>::empty();
                assert(env_map(env_views(out@)) == env_map(no_vars).insert(
                    "PATH"@,
                    env[pp] + ":"@ + current_path@,
                ));
                assert(env_map(env_views(out@)) =~= base);
            }
        },
        None => {
            assert(env_map(env_views(out@)) =~= base);
        },
    }
    let mut i: usize = 0;
    assert(ev.take(0) =~= Seq::<(Seq<char>, Seq<char>)>::empty());
    assert(env_map(ev.take(0)).remove(pp) =~= Map::empty());
    assert(base.union_prefer_right(Map::empty()) =~= base);
    while i < vars.len()
        invariant
            ev == env_views(vars@),
            env == env_map(ev),
            pp == "PATH_PREPEND"@,
            i <= vars@.len(),
            env_map(env_views(out@)) == base.union_prefer_right(
                env_map(ev.take(i as int)).remove(pp),
            ),
            base == (if env.contains_key(pp) {
                Map::empty().insert("PATH"@, env[pp] + ":"@ + current_path@)
            } else {
                Map::empty()
            }),
        decreases vars@.len() - i,
    {
        proof {
            lemma_env_map_step(ev, i as int);
        }
        let ghost before = env_map(env_views(out@));
        let ghost m0 = env_map(ev.take(i as int));
        if !str_eq(vars[i].key.as_str(), "PATH_PREPEND") {
            let ghost ov = env_views(out@);
            out.push(EnvVar { key: vars[i].key.clone(), value: vars[i].value.clone() });
            proof {
                assert(env_views(out@).drop_last() =~= ov);
                let ghost (k, v) = ev[i as int];
                assert(env_map(ev.take(i + 1)).remove(pp) =~= m0.remove(pp).insert(k, v));
                let ghost after = env_map(ev.take(i + 1)).remove(pp);
                assert(env_map(env_views(out@)) =~= base.union_prefer_right(after));
            }
        } else {
            assert(env_map(ev.take(i + 1)).remove(pp) =~= m0.remove(pp));
        }
        i += 1;
    }
    assert(ev.take(vars@.len() as int) == ev);
    assert(env_map(env_views(out@)) =~= overlay_of(env, current_path@));
    out
}

} // verus!
