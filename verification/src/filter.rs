use vstd::prelude::*;

verus! {

/// Three independent optional exact-match constraints: one on a workflow
/// name, one on a branch name, one on an artifact name. An unset constraint
/// accepts any candidate string; a set one accepts exactly the equal string,
/// case-sensitively and without normalization.
#[derive(Clone, Debug)]
pub struct Filter {
    pub workflow: Option<String>,
    pub branch: Option<String>,
    pub artifact: Option<String>,
}

/// What one constraint dimension accepts: anything when unset, otherwise
/// exactly the equal string.
pub open spec fn accepts(constraint: Option<String>, candidate: Seq<char>) -> bool {
    match constraint {
        Some(c) => c@ == candidate,
        None => true,
    }
}

impl Filter {
    pub open spec fn spec_test_workflow(self, candidate: Seq<char>) -> bool {
        accepts(self.workflow, candidate)
    }

    pub open spec fn spec_test_branch(self, candidate: Seq<char>) -> bool {
        accepts(self.branch, candidate)
    }

    pub open spec fn spec_test_artifact(self, candidate: Seq<char>) -> bool {
        accepts(self.artifact, candidate)
    }

    /// Accepts a workflow run's display name.
    pub fn test_workflow(&self, workflow: &str) -> (r: bool)
        ensures
            r == self.spec_test_workflow(workflow@),
    {
        match &self.workflow {
            Some(c) => {
                let candidate = workflow.to_owned();
                *c == candidate
            }
            None => true,
        }
    }

    /// Accepts a workflow run's source branch name.
    pub fn test_branch(&self, branch: &str) -> (r: bool)
        ensures
            r == self.spec_test_branch(branch@),
    {
        match &self.branch {
            Some(c) => {
                let candidate = branch.to_owned();
                *c == candidate
            }
            None => true,
        }
    }

    /// Accepts an artifact's display name.
    pub fn test_artifact(&self, artifact: &str) -> (r: bool)
        ensures
            r == self.spec_test_artifact(artifact@),
    {
        match &self.artifact {
            Some(c) => {
                let candidate = artifact.to_owned();
                *c == candidate
            }
            None => true,
        }
    }
}

/// With every constraint unset, every workflow name, branch name and artifact
/// name passes the filter.
pub proof fn lemma_unconstrained_accepts_all(f: Filter, candidate: Seq<char>)
    requires
        f.workflow is None,
        f.branch is None,
        f.artifact is None,
    ensures
        f.spec_test_workflow(candidate),
        f.spec_test_branch(candidate),
        f.spec_test_artifact(candidate),
{
}

/// With a constraint set, exactly the string equal to it passes that
/// dimension: any other candidate, a case difference included, is rejected.
pub proof fn lemma_set_constraint_is_exact(f: Filter, candidate: Seq<char>)
    ensures
        f.workflow matches Some(c) ==> (f.spec_test_workflow(candidate) <==> candidate == c@),
        f.branch matches Some(c) ==> (f.spec_test_branch(candidate) <==> candidate == c@),
        f.artifact matches Some(c) ==> (f.spec_test_artifact(candidate) <==> candidate == c@),
{
}

} // verus!
