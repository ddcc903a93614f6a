# PTP fast event consumer

Consumes PTP (Precision Time Protocol) events of the OpenShift PTP operator
through the O-Cloud Notification API v2, and shows the sync state of the system
clock, the lock state and the clock class on a web page with a live event log.

The decisions of the service are a library, `src/`, verified with Verus. The
program around it, `app/`, talks to Kubernetes, to the event publisher and to the
listeners.

| module         | what it decides                                                  |
|----------------|------------------------------------------------------------------|
| `discovery`    | which services publish events and call back, and their URLs      |
| `subscription` | what is posted to subscribe, and where                           |
| `event`        | what a CloudEvent tells, and how its delivery is answered        |
| `status`       | how a status is completed from the last broadcast                |
| `answer`       | what the other routes answer                                     |
| `http`         | the connection line and headers of a request, status numbers     |
| `address`      | hosts in URLs, peers in text                                     |
| `json`, `parse`| JSON values, and reading them with `serde_json`                  |
| `fields`       | values under distinct names                                      |
| `text`, `clock`| text by characters, and the current time with `chrono`           |
| `laws`         | what holds of the library as a whole                             |

## Configuration

- `PTP_NAMESPACE`: namespace of the PTP operator (default `openshift-ptp`)
- `NODE_NAME`: node name, from the downward API (default `unknown`)
- `POD_NAMESPACE`: pod namespace, from the downward API (default `ptp-consumer`)
