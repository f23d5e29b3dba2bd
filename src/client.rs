//! The downloader client: which binary to run, with which cookies, extra
//! arguments, ffmpeg location and environment, and the invocations built
//! from it.
use vstd::prelude::*;
use crate::command::{
    env_lookup, env_map, env_views, options_args, opt_pair, CommandBuilder, CommandView, EnvVar,
};
use crate::options::{opt_string_view, Container, DownloadOptions, OutputFormat};
use crate::progress::{opt_view, DownloadEvent, EventView};
use crate::text::{int_digits, int_string, string_views};

verus! {

/// The mathematical value of a `YtDlp` client.
pub struct ClientView {
    pub binary: Seq<char>,
    pub cookies_file: Option<Seq<char>>,
    pub extra_args: Seq<Seq<char>>,
    pub ffmpeg_location: Option<Seq<char>>,
    pub env: Map<Seq<char>, Seq<char>>,
}

/// Settings shared by every invocation of the downloader.
pub struct YtDlp {
    binary: String,
    cookies_file: Option<String>,
    extra_args: Vec<String>,
    ffmpeg_location: Option<String>,
    env_vars: Vec<EnvVar>,
}

impl View for YtDlp {
    type V = ClientView;

    closed spec fn view(&self) -> ClientView {
        ClientView {
            binary: self.binary@,
            cookies_file: opt_string_view(self.cookies_file),
            extra_args: string_views(self.extra_args@),
            ffmpeg_location: opt_string_view(self.ffmpeg_location),
            env: env_map(env_views(self.env_vars@)),
        }
    }
}

pub open spec fn opt_ref_view(o: Option<&String>) -> Option<Seq<char>> {
    match o {
        Some(s) => Some(s@),
        None => None,
    }
}

/// The value the tool's `--progress-template` is given: a `download:`
/// prefix, then percent, total size, speed and ETA.
pub open spec fn progress_template_text() -> Seq<char> {
    "download:%(progress._percent_str)s %(progress._total_bytes_str)s %(progress._speed_str)s %(progress._eta_str)s"@
}

/// The arguments every invocation begins with: cookies, then the extra
/// arguments.
pub open spec fn base_args(c: ClientView) -> Seq<Seq<char>> {
    opt_pair(c.cookies_file, "--cookies"@) + c.extra_args
}

/// The ffmpeg location flag, if one is set.
pub open spec fn ffmpeg_args(c: ClientView) -> Seq<Seq<char>> {
    opt_pair(c.ffmpeg_location, "--ffmpeg-location"@)
}

/// The arguments of a download whose progress is followed line by line.
pub open spec fn progress_download_args(
    c: ClientView,
    url: Seq<char>,
    output: Seq<char>,
    o: DownloadOptions,
) -> Seq<Seq<char>> {
    base_args(c) + options_args(o) + seq![
        "-o"@,
        output,
        "--newline"@,
        "--progress-template"@,
        progress_template_text(),
        url,
    ] + ffmpeg_args(c)
}

/// The event that ends a run once the tool's output is exhausted: an error
/// naming the exit code (`-1` when there is none) unless the tool succeeded,
/// else the file last named, or the output path when none was.
pub open spec fn exit_event(
    success: bool,
    code: Option<i32>,
    current: Option<Seq<char>>,
    output: Seq<char>,
) -> EventView {
    if !success {
        EventView::Error {
            message: "yt-dlp exited with code "@ + int_digits(
                match code {
                    Some(c) => c as int,
                    None => -1,
                },
            ),
        }
    } else {
        EventView::Finished {
            filename: match current {
                Some(f) => f,
                None => output,
            },
        }
    }
}

/// The event that ends a run (see `exit_event`).
pub fn finish_event(
    success: bool,
    code: Option<i32>,
    current_filename: Option<String>,
    output_path: &str,
) -> (r: DownloadEvent)
    ensures
        r@ == exit_event(success, code, opt_view(current_filename), output_path@),
{
    if !success {
        let c = match code {
            Some(c) => c,
            None => -1,
        };
        let mut message = "yt-dlp exited with code ".to_owned();
        message.append(int_string(c).as_str());
        DownloadEvent::Error { message }
    } else {
        let filename = match current_filename {
            Some(f) => f,
            None => output_path.to_owned(),
        };
        DownloadEvent::Finished { filename }
    }
}

fn copy_strings(v: &Vec<String>) -> (r: Vec<String>)
    ensures
        string_views(r@) == string_views(v@),
{
    let mut r: Vec<String> = Vec::new();
    let mut i: usize = 0;
    while i < v.len()
        invariant
            i <= v@.len(),
            r@.len() == i,
            string_views(r@) == string_views(v@).take(i as int),
        decreases v@.len() - i,
    {
        let ghost before = r@;
        r.push(v[i].clone());
        assert(r@ == before.push(v@[i as int]));
        assert forall|j: int| 0 <= j < i implies #[trigger] r@[j]@ == v@[j]@ by {
            assert(string_views(before)[j] == string_views(v@).take(i as int)[j]);
        }
        assert(string_views(r@) =~= string_views(v@).take(i + 1));
        i += 1;
    }
    assert(string_views(v@).take(v@.len() as int) =~= string_views(v@));
    r
}

fn copy_env(v: &Vec<EnvVar>) -> (r: Vec<EnvVar>)
    ensures
        env_views(r@) == env_views(v@),
{
    let mut r: Vec<EnvVar> = Vec::new();
    let mut i: usize = 0;
    while i < v.len()
        invariant
            i <= v@.len(),
            r@.len() == i,
            env_views(r@) == env_views(v@).take(i as int),
        decreases v@.len() - i,
    {
        let ghost before = r@;
        r.push(EnvVar { key: v[i].key.clone(), value: v[i].value.clone() });
        assert(r@.drop_last() == before);
        assert(r@.last().key@ == v@[i as int].key@);
        assert(r@.last().value@ == v@[i as int].value@);
        assert forall|j: int| 0 <= j < i implies #[trigger] r@[j].key@ == v@[j].key@ && r@[j].value@
            == v@[j].value@ by {
            assert(r@[j] == before[j]);
            assert(env_views(before)[j] == env_views(v@).take(i as int)[j]);
        }
        assert(env_views(r@) =~= env_views(v@).take(i + 1));
        i += 1;
    }
    assert(env_views(v@).take(v@.len() as int) =~= env_views(v@));
    r
}

impl Clone for YtDlp {
    fn clone(&self) -> (r: Self)
        ensures
            r@ == self@,
    {
        YtDlp {
            binary: self.binary.clone(),
            cookies_file: self.cookies_file.clone(),
            extra_args: copy_strings(&self.extra_args),
            ffmpeg_location: self.ffmpeg_location.clone(),
            env_vars: copy_env(&self.env_vars),
        }
    }
}

impl Default for YtDlp {
    fn default() -> (r: Self)
        ensures
            r@.binary == "yt-dlp"@,
            r@.cookies_file is None,
            r@.extra_args.len() == 0,
            r@.ffmpeg_location is None,
            r@.env == Map::<Seq<char>, Seq<char>>::empty(),
    {
        Self::new()
    }
}

impl YtDlp {
    /// A client that runs `yt-dlp` from the search path, with nothing else set.
    pub fn new() -> (r: Self)
        ensures
            r@.binary == "yt-dlp"@,
            r@.cookies_file is None,
            r@.extra_args.len() == 0,
            r@.ffmpeg_location is None,
            r@.env == Map::<Seq<char>, Seq<char>>::empty(),
    {
        Self::with_binary("yt-dlp")
    }

    pub fn with_binary(path: &str) -> (r: Self)
        ensures
            r@.binary == path@,
            r@.cookies_file is None,
            r@.extra_args.len() == 0,
            r@.ffmpeg_location is None,
            r@.env == Map::<Seq<char>, Seq<char>>::empty(),
    {
        let r = YtDlp {
            binary: path.to_owned(),
            cookies_file: None,
            extra_args: Vec::new(),
            ffmpeg_location: None,
            env_vars: Vec::new(),
        };
        assert(string_views(r.extra_args@) =~= Seq::<Seq<char>>::empty());
        assert(env_views(r.env_vars@) =~= Seq::<(Seq<char>, Seq<char>)>::empty());
        r
    }

    pub fn set_binary(&mut self, path: String)
        ensures
            final(self)@ == (ClientView { binary: path@, ..old(self)@ }),
    {
        self.binary = path;
    }

    pub fn set_cookies_file(&mut self, path: Option<String>)
        ensures
            final(self)@ == (ClientView { cookies_file: opt_string_view(path), ..old(self)@ }),
    {
        self.cookies_file = path;
    }

    pub fn set_extra_args(&mut self, args: Vec<String>)
        ensures
            final(self)@ == (ClientView { extra_args: string_views(args@), ..old(self)@ }),
    {
        self.extra_args = args;
    }

    pub fn set_ffmpeg_location(&mut self, path: Option<String>)
        ensures
            final(self)@ == (ClientView { ffmpeg_location: opt_string_view(path), ..old(self)@ }),
    {
        self.ffmpeg_location = path;
    }

    /// Sets one environment variable for the tool (`PATH_PREPEND` is put in
    /// front of `PATH`).
    pub fn set_env(&mut self, key: String, value: String)
        ensures
            final(self)@ == (ClientView { env: old(self)@.env.insert(key@, value@), ..old(self)@ }),
    {
        let ghost before = env_views(self.env_vars@);
        self.env_vars.push(EnvVar { key, value });
        assert(env_views(self.env_vars@).drop_last() =~= before);
    }

    pub fn binary(&self) -> (r: &str)
        ensures
            r@ == self@.binary,
    {
        self.binary.as_str()
    }

    pub fn cookies_file(&self) -> (r: Option<&String>)
        ensures
            opt_ref_view(r) == self@.cookies_file,
    {
        self.cookies_file.as_ref()
    }

    pub fn extra_args(&self) -> (r: &[String])
        ensures
            string_views(r@) == self@.extra_args,
    {
        self.extra_args.as_slice()
    }

    pub fn ffmpeg_location(&self) -> (r: Option<&String>)
        ensures
            opt_ref_view(r) == self@.ffmpeg_location,
    {
        self.ffmpeg_location.as_ref()
    }

    /// The value set for an environment variable, if any.
    pub fn env_var(&self, key: &str) -> (r: Option<&String>)
        ensures
            match r {
                Some(v) => self@.env.contains_key(key@) && self@.env[key@] == v@,
                None => !self@.env.contains_key(key@),
            },
    {
        env_lookup(&self.env_vars, key)
    }

    /// The environment assignments, in the order they were made.
    pub fn env_vars(&self) -> (r: &Vec<EnvVar>)
        ensures
            env_map(env_views(r@)) == self@.env,
    {
        &self.env_vars
    }

    /// The binary with the cookies flag and the extra arguments.
    fn base_command(&self) -> (r: CommandBuilder)
        ensures
            r@ == (CommandView { binary: self@.binary, args: base_args(self@) }),
    {
        let r = CommandBuilder::new(self.binary.as_str());
        let r = r.cookies_file_opt(self.cookies_file.as_ref()).args(&self.extra_args);
        assert(r@.args =~= base_args(self@));
        r
    }

    fn with_ffmpeg(&self, b: CommandBuilder) -> (r: CommandBuilder)
        ensures
            r@ == CommandBuilder::extended(b@, ffmpeg_args(self@)),
    {
        match &self.ffmpeg_location {
            Some(p) => b.ffmpeg_location(p.as_str()),
            None => {
                assert(b@.args + seq![] =~= b@.args);
                b
            },
        }
    }

    /// The start of every invocation: binary, cookies, extra arguments and
    /// ffmpeg location.
    pub fn command(&self) -> (r: CommandBuilder)
        ensures
            r@ == (CommandView {
                binary: self@.binary,
                args: base_args(self@) + ffmpeg_args(self@),
            }),
    {
        let b = self.base_command();
        self.with_ffmpeg(b)
    }

    /// The invocation that reads a video's metadata as JSON.
    pub fn video_info_command(&self, url: &str) -> (r: CommandBuilder)
        ensures
            r@ == (CommandView {
                binary: self@.binary,
                args: base_args(self@) + ffmpeg_args(self@) + seq![
                    "--dump-json"@,
                    "--skip-download"@,
                    "--no-playlist"@,
                    url@,
                ],
            }),
    {
        let r = self.command().json_output().skip_download().no_playlist().url(url);
        assert(r@.args =~= base_args(self@) + ffmpeg_args(self@) + seq![
            "--dump-json"@,
            "--skip-download"@,
            "--no-playlist"@,
            url@,
        ]);
        r
    }

    /// The invocation that lists a playlist's entries as JSON lines.
    pub fn playlist_info_command(&self, url: &str) -> (r: CommandBuilder)
        ensures
            r@ == (CommandView {
                binary: self@.binary,
                args: base_args(self@) + ffmpeg_args(self@) + seq![
                    "--dump-json"@,
                    "--skip-download"@,
                    "--yes-playlist"@,
                    "--flat-playlist"@,
                    url@,
                ],
            }),
    {
        let r = self.command().json_output().skip_download().yes_playlist();
        let r = r.flat_playlist().url(url);
        assert(r@.args =~= base_args(self@) + ffmpeg_args(self@) + seq![
            "--dump-json"@,
            "--skip-download"@,
            "--yes-playlist"@,
            "--flat-playlist"@,
            url@,
        ]);
        r
    }

    /// The invocation of a plain download to `output`.
    pub fn download_command(&self, url: &str, output: &str, options: &DownloadOptions) -> (r:
        CommandBuilder)
        ensures
            r@ == (CommandView {
                binary: self@.binary,
                args: base_args(self@) + ffmpeg_args(self@) + options_args(*options) + seq![
                    "-o"@,
                    output@,
                    url@,
                ],
            }),
    {
        let r = self.command().with_options(options).output(output).url(url);
        assert(r@.args =~= base_args(self@) + ffmpeg_args(self@) + options_args(*options) + seq![
            "-o"@,
            output@,
            url@,
        ]);
        r
    }

    /// The invocation of a download whose progress is read line by line:
    /// newline-separated progress in the machine-readable template.
    pub fn progress_command(&self, url: &str, output: &str, options: &DownloadOptions) -> (r:
        CommandBuilder)
        ensures
            r@ == (CommandView {
                binary: self@.binary,
                args: progress_download_args(self@, url@, output@, *options),
            }),
    {
        let b = self.base_command().with_options(options).output(output).newline_progress();
        let b = b.progress_template(
            "download:%(progress._percent_str)s %(progress._total_bytes_str)s %(progress._speed_str)s %(progress._eta_str)s",
        ).url(url);
        let r = self.with_ffmpeg(b);
        assert(r@.args =~= progress_download_args(self@, url@, output@, *options));
        r
    }

    /// A download of `url` whose options are still to be chosen.
    pub fn build_download(&self, url: &str) -> (r: DownloadBuilder)
        ensures
            r.client@ == self@,
            r.url@ == url@,
            r.options.is_default(),
    {
        DownloadBuilder {
            client: self.clone(),
            url: url.to_owned(),
            options: DownloadOptions::new(),
        }
    }
}

/// A download of one URL with a client and options.
pub struct DownloadBuilder {
    pub client: YtDlp,
    pub url: String,
    pub options: DownloadOptions,
}

impl DownloadBuilder {
    pub fn format(self, format: OutputFormat) -> (r: Self)
        ensures
            r.client == self.client && r.url == self.url,
            r.options == (DownloadOptions { format, ..self.options }),
    {
        DownloadBuilder { options: self.options.format(format), ..self }
    }

    pub fn container(self, container: Container) -> (r: Self)
        ensures
            r.client == self.client && r.url == self.url,
            r.options == (DownloadOptions { container, ..self.options }),
    {
        DownloadBuilder { options: self.options.container(container), ..self }
    }

    pub fn output_template(self, template: &str) -> (r: Self)
        ensures
            r.client == self.client && r.url == self.url,
            r.options.output_template matches Some(t) && t@ == template@,
            r.options == (DownloadOptions {
                output_template: r.options.output_template,
                ..self.options
            }),
    {
        DownloadBuilder { options: self.options.output_template(template), ..self }
    }

    pub fn embed_thumbnail(self, embed: bool) -> (r: Self)
        ensures
            r.client == self.client && r.url == self.url,
            r.options == (DownloadOptions { embed_thumbnail: embed, ..self.options }),
    {
        DownloadBuilder { options: self.options.embed_thumbnail(embed), ..self }
    }

    pub fn embed_metadata(self, embed: bool) -> (r: Self)
        ensures
            r.client == self.client && r.url == self.url,
            r.options == (DownloadOptions { embed_metadata: embed, ..self.options }),
    {
        DownloadBuilder { options: self.options.embed_metadata(embed), ..self }
    }

    pub fn embed_subtitles(self, embed: bool) -> (r: Self)
        ensures
            r.client == self.client && r.url == self.url,
            r.options == (DownloadOptions { embed_subtitles: embed, ..self.options }),
    {
        DownloadBuilder { options: self.options.embed_subtitles(embed), ..self }
    }

    pub fn extract_audio(self, extract: bool) -> (r: Self)
        ensures
            r.client == self.client && r.url == self.url,
            r.options == (DownloadOptions { extract_audio: extract, ..self.options }),
    {
        DownloadBuilder { options: self.options.extract_audio(extract), ..self }
    }

    pub fn audio_format(self, format: &str) -> (r: Self)
        ensures
            r.client == self.client && r.url == self.url,
            r.options.audio_format matches Some(f) && f@ == format@,
            r.options == (DownloadOptions { audio_format: r.options.audio_format, ..self.options }),
    {
        DownloadBuilder { options: self.options.audio_format(format), ..self }
    }

    pub fn audio_quality(self, quality: &str) -> (r: Self)
        ensures
            r.client == self.client && r.url == self.url,
            r.options.audio_quality matches Some(q) && q@ == quality@,
            r.options == (DownloadOptions {
                audio_quality: r.options.audio_quality,
                ..self.options
            }),
    {
        DownloadBuilder { options: self.options.audio_quality(quality), ..self }
    }

    pub fn cookies_file(self, path: &str) -> (r: Self)
        ensures
            r.client == self.client && r.url == self.url,
            r.options.cookies_file matches Some(p) && p@ == path@,
            r.options == (DownloadOptions { cookies_file: r.options.cookies_file, ..self.options }),
    {
        DownloadBuilder { options: self.options.cookies_file(path), ..self }
    }

    pub fn rate_limit(self, limit: &str) -> (r: Self)
        ensures
            r.client == self.client && r.url == self.url,
            r.options.rate_limit matches Some(l) && l@ == limit@,
            r.options == (DownloadOptions { rate_limit: r.options.rate_limit, ..self.options }),
    {
        DownloadBuilder { options: self.options.rate_limit(limit), ..self }
    }

    /// The invocation that downloads to `output`, reporting progress.
    pub fn progress_command(&self, output: &str) -> (r: CommandBuilder)
        ensures
            r@ == (CommandView {
                binary: self.client@.binary,
                args: progress_download_args(self.client@, self.url@, output@, self.options),
            }),
    {
        self.client.progress_command(self.url.as_str(), output, &self.options)
    }
}

} // verus!
