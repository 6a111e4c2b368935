use vstd::prelude::*;
use crate::config::{external_lookup, Config};
use crate::error::PlayError;
use crate::paths::{join_under, joined};
use crate::registry::has_name;

verus! {

/// How a new project instance comes to be: by running a registered external
/// command, or by copying the template's file tree into the destination.
pub enum Instantiation {
    RunExternal { command: String },
    CopyFiles { source_dir: String, dest_dir: String },
}

/// Everything the `new` operation decides before any filesystem change: the
/// directory that groups the template's instances (created first if absent),
/// the chosen project name, and how to instantiate. A project directory of
/// the chosen name may already exist; it is reused, the copy overwriting
/// files of the same name — no collision check is made.
pub struct NewPlan {
    pub template_parent: String,
    pub project_name: String,
    pub instantiation: Instantiation,
}

/// Decides the `new` operation. The template must be an available name —
/// a template directory or a registered external command — else nothing is
/// planned and the failure names it. The project is named by the caller's
/// explicit choice, or by the generated name when no choice was made. An
/// external command wins over a template directory of the same name.
pub fn plan_new(
    config: &Config,
    template_dirs: &Vec<String>,
    template: &String,
    explicit_name: Option<String>,
    generated_name: String,
) -> (r: Result<NewPlan, PlayError>)
    ensures
        r is Ok <==> (template_dirs.deep_view().contains(template@) || external_lookup(
            config.deep_view().external,
            template@,
        ) is Some),
        r matches Err(e) ==> e matches PlayError::UnknownTemplate { name } && name@ == template@,
        r matches Ok(plan) ==> {
            &&& plan.template_parent@ == joined(config.deep_view().target_dir, seq![template@])
            &&& plan.project_name@ == (if explicit_name is Some {
                explicit_name->0@
            } else {
                generated_name@
            })
            &&& (match external_lookup(config.deep_view().external, template@) {
                Some(cmd) => plan.instantiation matches Instantiation::RunExternal { command }
                    && command@ == cmd,
                None => plan.instantiation matches Instantiation::CopyFiles {
                    source_dir,
                    dest_dir,
                } && source_dir@ == joined(config.deep_view().templates_dir, seq![template@])
                    && dest_dir@ == joined(
                    config.deep_view().target_dir,
                    seq![template@, plan.project_name@],
                ),
            })
        },
{
    let in_dirs = has_name(template_dirs, template);
    let external = config.external_command(template);
    if !in_dirs && external.is_none() {
        return Err(PlayError::UnknownTemplate { name: template.clone() });
    }
    let template_parent = join_under(&config.target_dir, template);
    let project_name = match explicit_name {
        Some(chosen) => chosen,
        None => generated_name,
    };
    let instantiation = match external {
        Some(command) => Instantiation::RunExternal { command },
        None => {
            let source_dir = join_under(&config.templates_dir, template);
            let dest_dir = join_under(&template_parent, &project_name);
            proof {
                let two = seq![template@, project_name@];
                assert(two.drop_last() =~= seq![template@]);
                assert(two.last() == project_name@);
                assert(dest_dir@ =~= joined(
                    config.deep_view().target_dir,
                    seq![template@, project_name@],
                ));
            }
            Instantiation::CopyFiles { source_dir, dest_dir }
        },
    };
    Ok(NewPlan { template_parent, project_name, instantiation })
}

} // verus!
