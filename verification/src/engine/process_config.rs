//! Process configurations for the managed process system, and the
//! templates that a new one can be made from.

use vstd::prelude::*;

verus! {

/// The framework that a project is built with.
#[derive(Debug, Clone, Copy, PartialEq, Eq, Structural)]
pub enum FrameworkType {
    NextJs,
    Vite,
    FastAPI,
    SpringBoot,
    Django,
    Express,
    Flask,
    Unknown,
}

/// What a managed process is doing.
#[derive(Debug, Clone, Copy, PartialEq, Eq, Structural)]
pub enum ProcessStatus {
    Starting,
    Running,
    Stopped,
    Crashed,
}

/// Process template for quick setup
#[derive(Debug, Clone)]
pub struct ProcessTemplate {
    pub name: String,
    pub framework_type: FrameworkType,
    pub description: String,
    pub command: String,
    pub args: Vec<String>,
    pub default_port: Option<u16>,
    /// The variables that the template sets, in order.
    pub default_env_vars: Vec<(String, String)>,
    pub health_check_url: Option<String>,
    pub icon: String,
}

/// What a template holds, as plain values.
pub struct ProcessTemplateView {
    pub name: Seq<char>,
    pub framework_type: FrameworkType,
    pub description: Seq<char>,
    pub command: Seq<char>,
    pub args: Seq<Seq<char>>,
    pub default_port: Option<u16>,
    pub default_env_vars: Seq<(Seq<char>, Seq<char>)>,
    pub health_check_url: Option<Seq<char>>,
    pub icon: Seq<char>,
}

impl View for ProcessTemplate {
    type V = ProcessTemplateView;

    open spec fn view(&self) -> ProcessTemplateView {
        ProcessTemplateView {
            name: self.name@,
            framework_type: self.framework_type,
            description: self.description@,
            command: self.command@,
            args: self.args.deep_view(),
            default_port: self.default_port,
            default_env_vars: self.default_env_vars.deep_view(),
            health_check_url: self.health_check_url.deep_view(),
            icon: self.icon@,
        }
    }
}

impl DeepView for ProcessTemplate {
    type V = ProcessTemplateView;

    open spec fn deep_view(&self) -> ProcessTemplateView {
        self@
    }
}

/// The built-in template for Next.js projects.
pub open spec fn nextjs_template() -> ProcessTemplateView {
    ProcessTemplateView {
        name: "Next.js Development Server"@,
        framework_type: FrameworkType::NextJs,
        description: "React framework with SSR and routing"@,
        command: "npm"@,
        args: seq!["run"@, "dev"@],
        default_port: Some(3000u16),
        default_env_vars: seq![("NODE_ENV"@, "development"@)],
        health_check_url: Some("http://localhost:3000"@),
        icon: "‚ñ≤"@,
    }
}

/// The built-in template for Vite projects.
pub open spec fn vite_template() -> ProcessTemplateView {
    ProcessTemplateView {
        name: "Vite Development Server"@,
        framework_type: FrameworkType::Vite,
        description: "Fast build tool and dev server"@,
        command: "npm"@,
        args: seq!["run"@, "dev"@],
        default_port: Some(5173u16),
        default_env_vars: Seq::empty(),
        health_check_url: Some("http://localhost:5173"@),
        icon: "‚ö°"@,
    }
}

/// The built-in template for FastAPI projects.
pub open spec fn fastapi_template() -> ProcessTemplateView {
    ProcessTemplateView {
        name: "FastAPI Server"@,
        framework_type: FrameworkType::FastAPI,
        description: "Modern Python web framework"@,
        command: "uvicorn"@,
        args: seq!["main:app"@, "--reload"@, "--host"@, "0.0.0.0"@],
        default_port: Some(8000u16),
        default_env_vars: Seq::empty(),
        health_check_url: Some("http://localhost:8000/docs"@),
        icon: "üêç"@,
    }
}

/// The built-in template for Spring projects.
pub open spec fn spring_boot_template() -> ProcessTemplateView {
    ProcessTemplateView {
        name: "Spring Boot Application"@,
        framework_type: FrameworkType::SpringBoot,
        description: "Java enterprise framework"@,
        command: "./mvnw"@,
        args: seq!["spring-boot:run"@],
        default_port: Some(8080u16),
        default_env_vars: Seq::empty(),
        health_check_url: Some("http://localhost:8080/actuator/health"@),
        icon: "‚òï"@,
    }
}

/// The built-in template for Django projects.
pub open spec fn django_template() -> ProcessTemplateView {
    ProcessTemplateView {
        name: "Django Development Server"@,
        framework_type: FrameworkType::Django,
        description: "Python web framework"@,
        command: "python"@,
        args: seq!["manage.py"@, "runserver"@],
        default_port: Some(8000u16),
        default_env_vars: Seq::empty(),
        health_check_url: Some("http://localhost:8000"@),
        icon: "üé∏"@,
    }
}

/// The built-in template for Express projects.
pub open spec fn express_template() -> ProcessTemplateView {
    ProcessTemplateView {
        name: "Express Server"@,
        framework_type: FrameworkType::Express,
        description: "Node.js web framework"@,
        command: "node"@,
        args: seq!["server.js"@],
        default_port: Some(3000u16),
        default_env_vars: seq![("NODE_ENV"@, "development"@)],
        health_check_url: Some("http://localhost:3000"@),
        icon: "üöÇ"@,
    }
}

/// The built-in template for Flask projects.
pub open spec fn flask_template() -> ProcessTemplateView {
    ProcessTemplateView {
        name: "Flask Application"@,
        framework_type: FrameworkType::Flask,
        description: "Lightweight Python web framework"@,
        command: "flask"@,
        args: seq!["run"@, "--debug"@],
        default_port: Some(5000u16),
        default_env_vars: seq![("FLASK_APP"@, "app.py"@), ("FLASK_ENV"@, "development"@)],
        health_check_url: Some("http://localhost:5000"@),
        icon: "üå∂Ô∏è"@,
    }
}

/// The built-in templates, in the order in which they are offered.
pub open spec fn framework_templates() -> Seq<ProcessTemplateView> {
    seq![
        nextjs_template(),
        vite_template(),
        fastapi_template(),
        spring_boot_template(),
        django_template(),
        express_template(),
        flask_template(),
    ]
}

/// A list of texts.
fn texts(items: &[&str]) -> (list: Vec<String>)
    ensures
        list@.len() == items@.len(),
        forall|i: int| 0 <= i < items@.len() ==> (#[trigger] list@[i])@ == items@[i]@,
{
    let mut list: Vec<String> = Vec::new();
    let mut i: usize = 0;
    while i < items.len()
        invariant
            i <= items@.len(),
            list@.len() == i,
            forall|j: int| 0 <= j < i ==> (#[trigger] list@[j])@ == items@[j]@,
        decreases items@.len() - i,
    {
        list.push(items[i].to_owned());
        i = i + 1;
    }
    list
}

/// A list of pairs of texts.
fn pairs(items: &[(&str, &str)]) -> (list: Vec<(String, String)>)
    ensures
        list@.len() == items@.len(),
        forall|i: int|
            0 <= i < items@.len() ==> (#[trigger] list@[i]).0@ == items@[i].0@ && list@[i].1@ == items@[i].1@,
{
    let mut list: Vec<(String, String)> = Vec::new();
    let mut i: usize = 0;
    while i < items.len()
        invariant
            i <= items@.len(),
            list@.len() == i,
            forall|j: int|
                0 <= j < i ==> (#[trigger] list@[j]).0@ == items@[j].0@ && list@[j].1@ == items@[j].1@,
        decreases items@.len() - i,
    {
        list.push((items[i].0.to_owned(), items[i].1.to_owned()));
        i = i + 1;
    }
    list
}

/// Get built-in framework templates
pub fn get_framework_templates() -> (templates: Vec<ProcessTemplate>)
    ensures
        templates.deep_view() == framework_templates(),
{
    let mut templates: Vec<ProcessTemplate> = Vec::new();
    let nextjs = ProcessTemplate {
        name: "Next.js Development Server".to_owned(),
        framework_type: FrameworkType::NextJs,
        description: "React framework with SSR and routing".to_owned(),
        command: "npm".to_owned(),
        args: texts(&["run", "dev"]),
        default_port: Some(3000),
        default_env_vars: pairs(&[("NODE_ENV", "development")]),
        health_check_url: Some("http://localhost:3000".to_owned()),
        icon: "‚ñ≤".to_owned(),
    };
    assert(nextjs.args.deep_view() =~= nextjs_template().args);
    assert(nextjs.default_env_vars.deep_view() =~= nextjs_template().default_env_vars);
    assert(nextjs@ == nextjs_template());
    templates.push(nextjs);
    let vite = ProcessTemplate {
        name: "Vite Development Server".to_owned(),
        framework_type: FrameworkType::Vite,
        description: "Fast build tool and dev server".to_owned(),
        command: "npm".to_owned(),
        args: texts(&["run", "dev"]),
        default_port: Some(5173),
        default_env_vars: pairs(&[]),
        health_check_url: Some("http://localhost:5173".to_owned()),
        icon: "‚ö°".to_owned(),
    };
    assert(vite.args.deep_view() =~= vite_template().args);
    assert(vite.default_env_vars.deep_view() =~= vite_template().default_env_vars);
    assert(vite@ == vite_template());
    templates.push(vite);
    let fastapi = ProcessTemplate {
        name: "FastAPI Server".to_owned(),
        framework_type: FrameworkType::FastAPI,
        description: "Modern Python web framework".to_owned(),
        command: "uvicorn".to_owned(),
        args: texts(&["main:app", "--reload", "--host", "0.0.0.0"]),
        default_port: Some(8000),
        default_env_vars: pairs(&[]),
        health_check_url: Some("http://localhost:8000/docs".to_owned()),
        icon: "üêç".to_owned(),
    };
    assert(fastapi.args.deep_view() =~= fastapi_template().args);
    assert(fastapi.default_env_vars.deep_view() =~= fastapi_template().default_env_vars);
    assert(fastapi@ == fastapi_template());
    templates.push(fastapi);
    let spring_boot = ProcessTemplate {
        name: "Spring Boot Application".to_owned(),
        framework_type: FrameworkType::SpringBoot,
        description: "Java enterprise framework".to_owned(),
        command: "./mvnw".to_owned(),
        args: texts(&["spring-boot:run"]),
        default_port: Some(8080),
        default_env_vars: pairs(&[]),
        health_check_url: Some("http://localhost:8080/actuator/health".to_owned()),
        icon: "‚òï".to_owned(),
    };
    assert(spring_boot.args.deep_view() =~= spring_boot_template().args);
    assert(spring_boot.default_env_vars.deep_view() =~= spring_boot_template().default_env_vars);
    assert(spring_boot@ == spring_boot_template());
    templates.push(spring_boot);
    let django = ProcessTemplate {
        name: "Django Development Server".to_owned(),
        framework_type: FrameworkType::Django,
        description: "Python web framework".to_owned(),
        command: "python".to_owned(),
        args: texts(&["manage.py", "runserver"]),
        default_port: Some(8000),
        default_env_vars: pairs(&[]),
        health_check_url: Some("http://localhost:8000".to_owned()),
        icon: "üé∏".to_owned(),
    };
    assert(django.args.deep_view() =~= django_template().args);
    assert(django.default_env_vars.deep_view() =~= django_template().default_env_vars);
    assert(django@ == django_template());
    templates.push(django);
    let express = ProcessTemplate {
        name: "Express Server".to_owned(),
        framework_type: FrameworkType::Express,
        description: "Node.js web framework".to_owned(),
        command: "node".to_owned(),
        args: texts(&["server.js"]),
        default_port: Some(3000),
        default_env_vars: pairs(&[("NODE_ENV", "development")]),
        health_check_url: Some("http://localhost:3000".to_owned()),
        icon: "üöÇ".to_owned(),
    };
    assert(express.args.deep_view() =~= express_template().args);
    assert(express.default_env_vars.deep_view() =~= express_template().default_env_vars);
    assert(express@ == express_template());
    templates.push(express);
    let flask = ProcessTemplate {
        name: "Flask Application".to_owned(),
        framework_type: FrameworkType::Flask,
        description: "Lightweight Python web framework".to_owned(),
        command: "flask".to_owned(),
        args: texts(&["run", "--debug"]),
        default_port: Some(5000),
        default_env_vars: pairs(&[("FLASK_APP", "app.py"), ("FLASK_ENV", "development")]),
        health_check_url: Some("http://localhost:5000".to_owned()),
        icon: "üå∂Ô∏è".to_owned(),
    };
    assert(flask.args.deep_view() =~= flask_template().args);
    assert(flask.default_env_vars.deep_view() =~= flask_template().default_env_vars);
    assert(flask@ == flask_template());
    templates.push(flask);
    assert(templates.deep_view() =~= framework_templates());
    templates
}

} // verus!
