use vstd::prelude::*;

verus! {

/// One external-command template: instantiating `name` runs `command`
/// instead of copying files.
pub struct ExternalTemplate {
    pub name: String,
    pub command: String,
}

/// The mathematical shape of an [`ExternalTemplate`].
pub struct ExternalModel {
    pub name: Seq<char>,
    pub command: Seq<char>,
}

impl DeepView for ExternalTemplate {
    type V = ExternalModel;

    open spec fn deep_view(&self) -> ExternalModel {
        ExternalModel { name: self.name@, command: self.command@ }
    }
}

/// The tool's configuration: where generated projects go, where template
/// directories live, and which template names delegate to an external
/// command.
pub struct Config {
    pub target_dir: String,
    pub templates_dir: String,
    pub external: Vec<ExternalTemplate>,
}

/// The mathematical shape of a [`Config`].
pub struct ConfigModel {
    pub target_dir: Seq<char>,
    pub templates_dir: Seq<char>,
    pub external: Seq<ExternalModel>,
}

impl DeepView for Config {
    type V = ConfigModel;

    open spec fn deep_view(&self) -> ConfigModel {
        ConfigModel {
            target_dir: self.target_dir@,
            templates_dir: self.templates_dir@,
            external: self.external.deep_view(),
        }
    }
}

/// The command mapped to a template name: the first pairing under that name,
/// or nothing if the name maps to no external command.
pub open spec fn external_lookup(external: Seq<ExternalModel>, name: Seq<char>) -> Option<Seq<char>>
    decreases external.len(),
{
    if external.len() == 0 {
        Option::<Seq<char>>::None
    } else if external[0].name == name {
        Some(external[0].command)
    } else {
        external_lookup(external.drop_first(), name)
    }
}

impl Config {
    /// The external command registered for a template name, if any.
    pub fn external_command(&self, name: &String) -> (r: Option<String>)
        ensures
            r is Some <==> external_lookup(self.deep_view().external, name@) is Some,
            r matches Some(cmd) ==> Some(cmd@) == external_lookup(self.deep_view().external, name@),
    {
        let ghost ext = self.deep_view().external;
        let mut i: usize = 0;
        proof {
            assert(ext.skip(0) =~= ext);
        }
        while i < self.external.len()
            invariant
                i <= self.external.len(),
                ext == self.deep_view().external,
                ext.len() == self.external.len(),
                external_lookup(ext, name@) == external_lookup(ext.skip(i as int), name@),
            decreases self.external.len() - i,
        {
            proof {
                let rest = ext.skip(i as int);
                assert(rest[0] == ext[i as int]);
                assert(rest.drop_first() =~= ext.skip(i as int + 1));
            }
            if self.external[i].name == *name {
                return Some(self.external[i].command.clone());
            }
            i = i + 1;
        }
        proof {
            assert(ext.skip(ext.len() as int) =~= Seq::<ExternalModel>::empty());
        }
        None
    }
}

/// What the configuration store must do on start-up, given whether an
/// explicit configuration path was supplied and whether the configuration
/// file exists.
#[derive(Debug, PartialEq, Eq, Structural)]
pub enum SetupAction {
    /// An explicit path was supplied but no file is there: fail, never
    /// fabricate a configuration the user asked for by name.
    FailMissingConfig,
    /// The file exists: parse it; a parse failure is fatal.
    ParseExisting,
    /// No explicit path and no file yet: write the default configuration and
    /// use it.
    CreateDefault,
}

/// Decides the start-up action of the configuration store. An existing file
/// is always parsed — a repeated run reuses it unchanged; a missing file is
/// fatal exactly when its path was supplied explicitly.
pub fn setup_action(custom_path: bool, file_exists: bool) -> (a: SetupAction)
    ensures
        a == (if file_exists {
            SetupAction::ParseExisting
        } else if custom_path {
            SetupAction::FailMissingConfig
        } else {
            SetupAction::CreateDefault
        }),
{
    if file_exists {
        SetupAction::ParseExisting
    } else if custom_path {
        SetupAction::FailMissingConfig
    } else {
        SetupAction::CreateDefault
    }
}

/// The configuration written on first run: projects under `playground` in
/// the user's home directory, templates under its `.templates` subdirectory,
/// and no external-command templates.
pub fn default_config(home_dir: &String) -> (c: Config)
    ensures
        c.deep_view().target_dir == home_dir@ + "/playground"@,
        c.deep_view().templates_dir == home_dir@ + "/playground/.templates"@,
        c.deep_view().target_dir.len() > 0,
        c.deep_view().templates_dir.len() > 0,
        c.deep_view().external.len() == 0,
{
    proof {
        reveal_strlit("/playground");
        reveal_strlit("/playground/.templates");
    }
    let target_dir = home_dir.clone().concat("/playground");
    let templates_dir = home_dir.clone().concat("/playground/.templates");
    let c = Config { target_dir, templates_dir, external: Vec::new() };
    proof {
        assert(c.external.deep_view() =~= Seq::<ExternalModel>::empty());
    }
    c
}

/// The configuration file's location: an explicitly supplied path wins;
/// otherwise the file `play/play.json` under the platform's local
/// configuration directory.
pub fn config_file_path(custom_path: Option<String>, local_config_dir: &String) -> (p: String)
    ensures
        custom_path matches Some(given) ==> p@ == given@,
        custom_path is None ==> p@ == local_config_dir@ + "/play/play.json"@,
{
    match custom_path {
        Some(given) => given,
        None => local_config_dir.clone().concat("/play/play.json"),
    }
}

} // verus!
